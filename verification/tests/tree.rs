use dormin::tree::{Tree, TreePlace};
use dormin::widget::WidgetConfig;

#[test]
fn objects_go_under_the_item_of_their_parent() {
    let mut t = Tree::new(&WidgetConfig::new());
    assert_eq!(t.name(), "tree_name");
    assert!(t.visible());
    assert_eq!(t.placement(1, None), TreePlace::Top);
    t.object_added(1, 100);
    assert_eq!(t.placement(1, None), TreePlace::Known);
    assert_eq!(t.placement(2, Some(1)), TreePlace::Under(100));
    t.object_added(2, 200);
    assert_eq!(t.placement(3, Some(9)), TreePlace::ParentMissing);
    assert_eq!(t.item_of(2), Some(200));
    assert_eq!(t.item_of(3), None);
    assert_eq!(t.items_of(&vec![2, 3, 1]), vec![200, 100]);
}

#[test]
fn removing_objects_gives_their_items() {
    let mut t = Tree::new(&WidgetConfig::new_from_obj((0, 0, 200, 300)));
    t.object_added(1, 10);
    t.object_added(2, 20);
    t.object_added(3, 30);
    let removed = t.remove_objects_by_id(&vec![3, 7, 1, 3]);
    assert_eq!(removed, vec![30, 10]);
    assert_eq!(t.item_of(2), Some(20));
    assert_eq!(t.item_of(1), None);
    t.set_visible(false);
    assert!(!t.visible());
    assert_eq!(t.get_config().w, 200);
    t.clear_objects();
    assert_eq!(t.item_of(2), None);
}
