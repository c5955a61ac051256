use dormin::property_box::PropertyBox;

#[test]
fn nodes_are_added_under_the_node_that_holds_them() {
    let mut b = PropertyBox::new();
    assert!(b.visible());
    assert_eq!(b.name, "property_box_name");
    let (p, object) = b.add_common("object", 100);
    assert_eq!(p, None);
    let (p, name) = b.add_common("object/name", 101);
    assert_eq!(p, Some(object));
    let (_, scripts) = b.add_common("object/comp_lua", 102);
    let (p, first) = b.add_common("object/comp_lua/0", 103);
    assert_eq!(p, Some(scripts));
    assert_eq!(b.get_node("object/name"), Some(name));
    assert_eq!(b.get_node("object/comp_lua/0"), Some(first));
    assert_eq!(b.tree.node(first).get_path(&b.tree), "object/comp_lua/0");
    assert_eq!(b.tree.node(first).value(), 103);
    assert_eq!(b.get_node("object/position"), None);
}

#[test]
fn nodes_are_removed_from_the_node_that_holds_them() {
    let mut b = PropertyBox::new();
    let (_, object) = b.add_common("object", 1);
    let (_, scripts) = b.add_common("object/comp_lua", 2);
    let (_, a) = b.add_common("object/comp_lua/0", 3);
    let (_, c) = b.add_common("object/comp_lua/1", 4);
    assert_eq!(b.del_common("object/comp_lua/0"), Some(scripts));
    assert_eq!(b.get_node("object/comp_lua/0"), Some(c));
    assert_eq!(b.tree.node(c).name(), "0");
    assert_ne!(a, c);
    assert_eq!(b.del_common("object"), None);
    assert_eq!(b.get_node("object"), None);
    assert_ne!(object, scripts);
    b.set_visible(false);
    assert!(!b.visible());
    b.clear_nodes();
    assert_eq!(b.tree.len(), 0);
}
