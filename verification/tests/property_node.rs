use dormin::property_node::{node_add_child, node_del_child, node_new, NodeChildren, PropertyNode, PropertyTree};

fn tree_with_root() -> (PropertyTree, usize) {
    let mut t = PropertyTree::new();
    let root = t.add(PropertyNode::new("object", 10));
    (t, root)
}

#[test]
fn a_child_added_under_a_field_is_found_by_that_field() {
    let (mut t, root) = tree_with_root();
    let name = t.add(node_new("name", 11));
    node_add_child(&mut t, "name", root, name);
    assert_eq!(t.node(root).get_node(&t, "name"), Some(name));
    assert_eq!(t.node(root).get_child_count(), 1);
    assert_eq!(t.node(name).parent(), Some(root));
    assert_eq!(t.node(name).value(), 11);
    assert!(t.node(root).get_node(&t, "other").is_none());
}

#[test]
fn paths_join_the_names_up_to_the_root() {
    let (mut t, root) = tree_with_root();
    let pos = t.add(PropertyNode::new("position", 1));
    node_add_child(&mut t, "position", root, pos);
    let x = t.add(PropertyNode::new("x", 2));
    node_add_child(&mut t, "x", pos, x);
    assert_eq!(t.node(x).get_path(&t), "object/position/x");
    assert_eq!(t.node(root).get_path(&t), "object");
    assert_eq!(t.node(root).get_node(&t, "position/x"), Some(x));
}

#[test]
fn vector_items_are_named_by_their_index() {
    let (mut t, root) = tree_with_root();
    let v = t.add(PropertyNode::new("comp_lua", 1));
    node_add_child(&mut t, "comp_lua", root, v);
    let a = t.add(PropertyNode::new("0", 2));
    node_add_child(&mut t, "0", v, a);
    let b = t.add(PropertyNode::new("1", 3));
    node_add_child(&mut t, "1", v, b);
    assert_eq!(t.node(v).get_child_count(), 2);
    assert_eq!(t.node(root).get_node(&t, "comp_lua/1"), Some(b));
    // inserting at the front renames the items after it
    let c = t.add(PropertyNode::new("0", 4));
    node_add_child(&mut t, "0", v, c);
    assert_eq!(t.node(v).get_node(&t, "0"), Some(c));
    assert_eq!(t.node(v).get_node(&t, "1"), Some(a));
    assert_eq!(t.node(v).get_node(&t, "2"), Some(b));
    assert_eq!(t.node(a).name(), "1");
    assert_eq!(t.node(b).name(), "2");
    assert_eq!(t.node(b).get_path(&t), "object/comp_lua/2");
}

#[test]
fn children_add_get_and_del_by_field() {
    let mut t = PropertyTree::new();
    let a = t.add(PropertyNode::new("a", 1));
    let b = t.add(PropertyNode::new("b", 2));
    let mut c = NodeChildren::Empty;
    assert_eq!(c.get_count(), 0);
    c.add_node(&mut t, "a", a);
    c.add_node(&mut t, "b", b);
    assert_eq!(c.get_count(), 2);
    assert_eq!(c.get_node(&t, "b"), Some(b));
    // a field added again replaces the child under it
    c.add_node(&mut t, "b", a);
    assert_eq!(c.get_count(), 2);
    assert_eq!(c.get_node(&t, "b"), Some(a));
    c.del_node(&mut t, "a");
    assert_eq!(c.get_count(), 1);
    assert!(c.get_node(&t, "a").is_none());
    // removing a field that is not there changes nothing
    c.del_node(&mut t, "zz");
    assert_eq!(c.get_count(), 1);
}

#[test]
fn deleting_a_vector_item_renames_the_items_after_it() {
    let mut t = PropertyTree::new();
    let ids: Vec<usize> = (0..3).map(|i| t.add(PropertyNode::new(&i.to_string(), i))).collect();
    let mut children = NodeChildren::Vec(ids.clone());
    assert_eq!(children.get_count(), 3);
    children.del_node(&mut t, "0");
    assert_eq!(children.get_count(), 2);
    assert_eq!(children.get_node(&t, "0"), Some(ids[1]));
    assert_eq!(children.get_node(&t, "1"), Some(ids[2]));
    assert_eq!(t.node(ids[1]).name(), "0");
    assert_eq!(t.node(ids[2]).name(), "1");
}

#[test]
fn del_child_removes_a_field_of_a_node() {
    let mut t = PropertyTree::new();
    let x = t.add(PropertyNode::new("x", 1));
    let y = t.add(PropertyNode::new("y", 2));
    let mut n = PropertyNode::new("position", 0);
    assert_eq!(n.get_child_count(), 0);
    assert_eq!(n.name(), "position");
    assert!(n.parent().is_none());
    let mut c = NodeChildren::Empty;
    c.add_node(&mut t, "x", x);
    c.add_node(&mut t, "y", y);
    let root = t.add(node_new("position", 0));
    node_add_child(&mut t, "x", root, x);
    node_add_child(&mut t, "y", root, y);
    assert_eq!(t.node(root).get_child_count(), 2);
    assert_eq!(t.node(root).get_node(&t, "y"), Some(y));
    n = node_new("position", 0);
    assert_eq!(n.get_child_count(), 0);
    c.del_node(&mut t, "x");
    assert_eq!(c.get_count(), 1);
    assert_eq!(c.get_node(&t, "y"), Some(y));
}

#[test]
fn node_del_child_removes_a_child_of_a_node_of_the_tree() {
    let (mut t, root) = tree_with_root();
    let v = t.add(PropertyNode::new("comp_lua", 1));
    node_add_child(&mut t, "comp_lua", root, v);
    let a = t.add(PropertyNode::new("0", 2));
    node_add_child(&mut t, "0", v, a);
    let b = t.add(PropertyNode::new("1", 3));
    node_add_child(&mut t, "1", v, b);
    node_del_child(&mut t, "0", v);
    assert_eq!(t.node(v).get_child_count(), 1);
    assert_eq!(t.node(root).get_node(&t, "comp_lua/0"), Some(b));
    assert_eq!(t.node(b).get_path(&t), "object/comp_lua/0");
    node_del_child(&mut t, "comp_lua", root);
    assert_eq!(t.node(root).get_child_count(), 0);
    assert!(t.node(root).get_node(&t, "comp_lua").is_none());
}
