use dormin::operation::{Change, Operation, OperationData, OperationManager};
use dormin::scene::{Object, ObjectId, Scene};

fn obj(name: &str, id: ObjectId) -> Object {
    Object {
        name: name.to_string(),
        id,
        mesh_render: None,
        children: vec![],
        parent: None,
        comp_string: vec![],
        comp_lua: vec![],
    }
}

fn scene() -> Scene {
    Scene { name: "s".to_string(), id: 9, objects: vec![obj("a", 1), obj("b", 2)], camera: None }
}

fn names(s: &Scene) -> Vec<String> {
    s.objects.iter().map(|o| o.name.clone()).collect()
}

#[test]
fn old_new_applies_and_undoes() {
    let mut s = scene();
    let mut op = Operation::new(
        vec![1],
        vec!["name".to_string()],
        OperationData::OldNew("a".to_string(), "renamed".to_string()),
    );
    match op.apply(&mut s) {
        Change::Objects(path, ids) => {
            assert_eq!(path, "name");
            assert_eq!(ids, vec![1]);
        },
        _ => panic!("expected an objects change"),
    }
    assert_eq!(names(&s), vec!["renamed", "b"]);
    op.undo(&mut s);
    assert_eq!(names(&s), vec!["a", "b"]);
}

#[test]
fn vector_sets_each_object_its_value() {
    let mut s = scene();
    let mut op = Operation::new(
        vec![1, 2],
        vec!["object".to_string(), "name".to_string()],
        OperationData::Vector(
            vec!["a".to_string(), "b".to_string()],
            vec!["x".to_string(), "y".to_string()],
        ),
    );
    op.apply(&mut s);
    assert_eq!(names(&s), vec!["x", "y"]);
    op.undo(&mut s);
    assert_eq!(names(&s), vec!["a", "b"]);
}

#[test]
fn scene_add_objects_adds_then_takes_back() {
    let mut s = scene();
    let data = OperationData::scene_add_objects(vec![obj("c", 3), obj("d", 4)]);
    match &data {
        OperationData::SceneAddObjects(obs, ids) => {
            assert_eq!(obs.len(), 2);
            assert_eq!(ids, &vec![3, 4]);
        },
        _ => panic!("expected scene add objects"),
    }
    let mut op = Operation::new(vec![], vec![], data);
    match op.apply(&mut s) {
        Change::SceneAdd(sid, ids) => {
            assert_eq!(sid, 9);
            assert_eq!(ids, vec![3, 4]);
        },
        _ => panic!("expected a scene add"),
    }
    assert_eq!(names(&s), vec!["a", "b", "c", "d"]);
    match op.undo(&mut s) {
        Change::SceneRemove(sid, ids) => {
            assert_eq!(sid, 9);
            assert_eq!(ids, vec![3, 4]);
        },
        _ => panic!("expected a scene remove"),
    }
    assert_eq!(names(&s), vec!["a", "b"]);
    // the operation holds the objects again, and can be done again
    op.apply(&mut s);
    assert_eq!(names(&s), vec!["a", "b", "c", "d"]);
}

#[test]
fn manager_undo_and_redo() {
    let mut s = scene();
    let mut m = OperationManager::new();
    assert!(matches!(m.undo(&mut s), Change::Unchanged));
    assert!(matches!(m.redo(&mut s), Change::Unchanged));
    m.add(
        Operation::new(vec![2], vec!["name".to_string()], OperationData::OldNew("b".to_string(), "bb".to_string())),
        &mut s,
    );
    m.add(
        Operation::new(vec![1], vec!["name".to_string()], OperationData::OldNew("a".to_string(), "aa".to_string())),
        &mut s,
    );
    assert_eq!(names(&s), vec!["aa", "bb"]);
    m.undo(&mut s);
    assert_eq!(names(&s), vec!["a", "bb"]);
    m.undo(&mut s);
    assert_eq!(names(&s), vec!["a", "b"]);
    assert_eq!(m.undo.len(), 0);
    assert_eq!(m.redo.len(), 2);
    m.redo(&mut s);
    assert_eq!(names(&s), vec!["a", "bb"]);
    // a new operation drops what could be redone
    m.add(
        Operation::new(vec![1], vec!["name".to_string()], OperationData::OldNew("a".to_string(), "z".to_string())),
        &mut s,
    );
    assert_eq!(m.redo.len(), 0);
    assert_eq!(m.undo.len(), 2);
    assert_eq!(names(&s), vec!["z", "bb"]);
}

#[test]
fn to_none_and_to_some_leave_texts_alone_when_done() {
    let mut s = scene();
    let mut op = Operation::new(vec![1], vec!["name".to_string()], OperationData::ToNone("a".to_string()));
    op.apply(&mut s);
    assert_eq!(names(&s), vec!["a", "b"]);
    let mut op2 = Operation::new(vec![1], vec!["name".to_string()], OperationData::ToSome);
    op2.apply(&mut s);
    op2.undo(&mut s);
    assert_eq!(names(&s), vec!["a", "b"]);
}

#[test]
fn redo_after_undo_gives_back_the_changed_scene() {
    let mut s = scene();
    let mut op = Operation::new(
        vec![1, 2],
        vec!["object".to_string(), "name".to_string()],
        OperationData::Vector(
            vec!["a".to_string(), "b".to_string()],
            vec!["x".to_string(), "y".to_string()],
        ),
    );
    op.apply(&mut s);
    op.undo(&mut s);
    op.apply(&mut s);
    assert_eq!(names(&s), vec!["x", "y"]);

    let mut s = scene();
    let mut add = Operation::new(
        vec![],
        vec![],
        OperationData::scene_add_objects(vec![obj("c", 3)]),
    );
    add.apply(&mut s);
    let after_add = names(&s);
    add.undo(&mut s);
    add.apply(&mut s);
    assert_eq!(names(&s), after_add);
    assert_eq!(names(&s), vec!["a", "b", "c"]);
}
