use dormin::context::{copy_ids, ids_without, Context};
use dormin::control::{CameraMove, Control, MouseMoveAction, MouseUpAction, State};
use dormin::operation::Change;
use dormin::scene::{Object, ObjectId, Scene};

fn obj(id: ObjectId, children: Vec<Object>) -> Object {
    Object {
        name: format!("o{}", id),
        id,
        mesh_render: None,
        children,
        parent: None,
        comp_string: vec![],
        comp_lua: vec![],
    }
}

fn context_with_scene() -> Context {
    let mut c = Context::new();
    c.scene = Some(Scene {
        name: "s".to_string(),
        id: 50,
        objects: vec![obj(1, vec![obj(11, vec![])]), obj(2, vec![]), obj(3, vec![])],
        camera: None,
    });
    c
}

#[test]
fn ids_without_drops_the_given_ids() {
    assert_eq!(ids_without(&vec![1, 2, 3, 2], &vec![2]), vec![1, 3]);
    assert_eq!(copy_ids(&vec![4, 5]), vec![4, 5]);
}

#[test]
fn context_selection_add_and_remove() {
    let mut c = context_with_scene();
    assert!(c.get_selected_ids().is_empty());
    // only top-level objects of the scene, each once
    c.add_objects_by_id(vec![2, 11, 2, 99, 1]);
    assert_eq!(c.get_vec_selected_ids(), vec![2, 1]);
    c.remove_objects_by_id(vec![2]);
    assert_eq!(c.get_selected_ids(), vec![1]);
}

#[test]
fn context_without_scene_selects_nothing() {
    let mut c = Context::new();
    c.add_objects_by_id(vec![1]);
    assert!(c.selected.is_empty());
}

#[test]
fn control_select_and_unselect() {
    let mut c = context_with_scene();
    let mut ctl = Control::new();
    let mut ids: Vec<ObjectId> = vec![11, 3, 77];
    ctl.select_by_id(&mut c, &mut ids);
    assert_eq!(c.selected, vec![11, 3]);
    assert_eq!(ids, vec![77]);
    assert_eq!(ctl.get_selected_object(&c), Some(11));
    assert_eq!(ctl.get_selected_objects(&c), vec![11, 3]);
    ctl.unselect(&mut c, &vec![11]);
    assert_eq!(c.selected, vec![3]);
}

#[test]
fn rectangle_selection_with_control() {
    let c = context_with_scene();
    let mut ctl = Control::new();
    let list = ctl.mouse_down(&c, 2, 1, 10, 20, 0, false);
    assert_eq!(ctl.state, State::MultipleSelect);
    assert_eq!(list.len(), 2);
    assert!(matches!(list[0], Change::RectVisibleSet(true)));
    assert!(matches!(list[1], Change::RectSet(10, 20, 1, 1)));
    match ctl.mouse_move(2, 1, 4, 30, 10, 20, 0) {
        MouseMoveAction::SelectRect(x, y, w, h) => assert_eq!((x, y, w, h), (4, 20, 6, 10)),
        _ => panic!("expected a rectangle"),
    }
    match ctl.mouse_up(&c) {
        MouseUpAction::Done(Change::RectVisibleSet(false)) => {},
        _ => panic!("expected the rectangle to hide"),
    }
    assert_eq!(ctl.state, State::Idle);
}

#[test]
fn dragging_a_dragger() {
    let mut c = context_with_scene();
    c.selected.push(1);
    let mut ctl = Control::new();
    assert!(ctl.needs_dragger_check(&c, 0));
    assert!(!ctl.needs_dragger_check(&c, 2));
    let list = ctl.mouse_down(&c, 0, 1, 5, 5, 0, true);
    assert_eq!(list.len(), 1);
    assert!(matches!(list[0], Change::DraggerClicked));
    assert_eq!(ctl.state, State::Dragger);
    assert!(matches!(ctl.mouse_move(0, 1, 7, 8, 5, 5, 0), MouseMoveAction::DraggerDrag(7, 8)));
    assert!(matches!(ctl.mouse_up(&c), MouseUpAction::DraggerRelease));
}

#[test]
fn camera_moves_with_the_first_button() {
    let c = context_with_scene();
    let mut ctl = Control::new();
    assert!(matches!(ctl.mouse_move(1, 1, 15, 5, 10, 10, 0), MouseMoveAction::Hover(CameraMove::Pan(5, -5))));
    assert_eq!(ctl.state, State::Idle);
    assert!(matches!(ctl.mouse_move(0, 1, 15, 5, 10, 10, 0), MouseMoveAction::Hover(CameraMove::Rotate(5, -5))));
    assert_eq!(ctl.state, State::CameraRotation);
    assert!(matches!(ctl.mouse_move(0, 3, 15, 5, 10, 10, 0), MouseMoveAction::Hover(CameraMove::Still)));
    assert!(matches!(ctl.mouse_up(&c), MouseUpAction::Done(Change::Unchanged)));
    assert!(matches!(ctl.mouse_up(&c), MouseUpAction::Pick));
    assert!(matches!(ctl.mouse_up(&Context::new()), MouseUpAction::Done(Change::Unchanged)));
}

#[test]
fn picking_selects_the_closest_object() {
    match Control::picked(Some(3)) {
        Change::ChangeSelected(ids) => assert_eq!(ids, vec![3]),
        _ => panic!("expected a selection"),
    }
    match Control::picked(None) {
        Change::ChangeSelected(ids) => assert!(ids.is_empty()),
        _ => panic!("expected a selection"),
    }
}

#[test]
fn keys_move_the_camera_or_undo() {
    let mut ctl = Control::new();
    let a = ctl.key_down(0, "e", "e", 0);
    assert_eq!(a.camera_move, (0, 0, -50));
    assert!(matches!(a.change, Change::Unchanged));
    assert_eq!(ctl.key_down(0, "s", "s", 0).camera_move, (-50, 0, 0));
    assert!(matches!(ctl.key_down(0, "z", "z", 0).change, Change::Undo));
    assert!(matches!(ctl.key_down(0, "r", "r", 0).change, Change::Redo));
    let sp = ctl.key_down(0, "space", "space", 0);
    assert!(sp.dragger_change);
    assert_eq!(sp.camera_move, (0, 0, 0));
    assert_eq!(ctl.key_down(0, "q", "q", 0).camera_move, (0, 0, 0));
}
