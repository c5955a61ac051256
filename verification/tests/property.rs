use dormin::property::set_in;
use dormin::scene::{Object, ObjectId};

fn obj(name: &str, id: ObjectId, children: Vec<Object>, scripts: &[&str]) -> Object {
    Object {
        name: name.to_string(),
        id,
        mesh_render: None,
        children,
        parent: None,
        comp_string: vec!["mesh_render".to_string()],
        comp_lua: scripts.iter().map(|s| s.to_string()).collect(),
    }
}

#[test]
fn setting_the_name_sets_the_name() {
    let mut o = obj("a", 1, vec![], &[]);
    o.test_set_property_hier("name", &"b".to_string());
    assert_eq!(o.name, "b");
    // a leading "object" component is passed over
    o.test_set_property_hier("object/name", &"c".to_string());
    assert_eq!(o.name, "c");
    assert_eq!(o.id, 1);
    assert_eq!(o.comp_string, vec!["mesh_render".to_string()]);
}

#[test]
fn setting_a_script_sets_that_script() {
    let mut o = obj("a", 1, vec![], &["x.lua", "y.lua"]);
    o.test_set_property_hier("comp_lua/1", &"z.lua".to_string());
    assert_eq!(o.comp_lua, vec!["x.lua".to_string(), "z.lua".to_string()]);
    assert_eq!(o.name, "a");
}

#[test]
fn other_paths_change_nothing() {
    let mut o = obj("a", 1, vec![], &["x.lua"]);
    o.test_set_property_hier("position/x", &"3".to_string());
    o.test_set_property_hier("comp_lua/0/deeper", &"q".to_string());
    assert_eq!(o.name, "a");
    assert_eq!(o.comp_lua, vec!["x.lua".to_string()]);
}

#[test]
fn set_then_restore_gives_the_object_back() {
    let mut o = obj("a", 1, vec![], &["x.lua"]);
    o.test_set_property_hier("name", &"b".to_string());
    o.test_set_property_hier("name", &"a".to_string());
    assert_eq!(o.name, "a");
    o.test_set_property_hier("comp_lua/0", &"w.lua".to_string());
    o.test_set_property_hier("comp_lua/0", &"x.lua".to_string());
    assert_eq!(o.comp_lua, vec!["x.lua".to_string()]);
}

#[test]
fn set_in_sets_each_object_of_the_tree_by_id() {
    let mut list = vec![
        obj("a", 1, vec![obj("a1", 11, vec![], &[])], &[]),
        obj("b", 2, vec![], &[]),
    ];
    let ids: Vec<ObjectId> = vec![11, 2];
    let values = vec!["first".to_string(), "second".to_string()];
    set_in(&mut list, &ids, &values, "name");
    assert_eq!(list[0].name, "a");
    assert_eq!(list[0].children[0].name, "first");
    assert_eq!(list[1].name, "second");
}

#[test]
fn set_in_uses_the_last_value_of_an_id() {
    let mut list = vec![obj("a", 1, vec![], &[])];
    let ids: Vec<ObjectId> = vec![1, 1];
    let values = vec!["x".to_string(), "y".to_string()];
    set_in(&mut list, &ids, &values, "object/name");
    assert_eq!(list[0].name, "y");
}

#[test]
fn a_text_property_reads_back_what_was_set() {
    let mut o = obj("a", 1, vec![], &["x.lua", "y.lua"]);
    assert_eq!(o.get_property_hier("name"), Some("a".to_string()));
    assert_eq!(o.get_property_hier("object/comp_lua/1"), Some("y.lua".to_string()));
    assert_eq!(o.get_property_hier("position/x"), None);
    assert_eq!(o.get_property_hier("comp_lua/0/deeper"), None);
    o.test_set_property_hier("comp_lua/0", &"z.lua".to_string());
    assert_eq!(o.get_property_hier("comp_lua/0"), Some("z.lua".to_string()));
    o.test_set_property_hier("object/name", &"renamed".to_string());
    assert_eq!(o.get_property_hier("object/name"), Some("renamed".to_string()));
}

#[test]
fn scripts_are_added_and_removed_at_an_index() {
    let mut o = obj("a", 1, vec![], &["x.lua", "y.lua"]);
    o.add_item("comp_lua", 1, &"new.lua".to_string());
    assert_eq!(o.comp_lua, vec!["x.lua".to_string(), "new.lua".to_string(), "y.lua".to_string()]);
    o.add_item("object/comp_lua/3", 3, &"last.lua".to_string());
    assert_eq!(o.comp_lua.len(), 4);
    assert_eq!(o.comp_lua[3], "last.lua");
    o.del_item("comp_lua", 1);
    o.del_item("comp_lua/3", 2);
    assert_eq!(o.comp_lua, vec!["x.lua".to_string(), "y.lua".to_string()]);
    // other properties have no items
    o.add_item("name", 0, &"z".to_string());
    o.del_item("comp_lua/0/deeper", 0);
    assert_eq!(o.name, "a");
    assert_eq!(o.comp_lua.len(), 2);
}
