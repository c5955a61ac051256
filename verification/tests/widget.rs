use dormin::widget::{vec_change_action, PropertyChange, PropertyConfig, ShouldUpdate, VecChangeAction, WidgetConfig};

#[test]
fn default_window_configurations() {
    let w = WidgetConfig::new();
    assert_eq!(w, WidgetConfig { visible: true, x: 10, y: 10, w: 300, h: 400 });
    let g = WidgetConfig::new_from_obj((1, 2, 640, 480));
    assert_eq!(g, WidgetConfig { visible: true, x: 1, y: 2, w: 640, h: 480 });
    let _p = PropertyConfig::new();
    assert_ne!(ShouldUpdate::Nothing, ShouldUpdate::Mesh);
}

#[test]
fn adding_an_item_names_its_path() {
    match vec_change_action(3, "object/comp_lua", &vec![], PropertyChange::VecAdd(2)) {
        VecChangeAction::AddItem(path, i) => {
            assert_eq!(path, "object/comp_lua/2");
            assert_eq!(i, 2);
        },
        _ => panic!("expected an item to add"),
    }
    match vec_change_action(3, "v", &vec![], PropertyChange::VecDel(10)) {
        VecChangeAction::DelItem(path, i) => {
            assert_eq!(path, "v/10");
            assert_eq!(i, 10);
        },
        _ => panic!("expected an item to drop"),
    }
}

#[test]
fn a_change_deeper_goes_on_to_the_item() {
    let local = vec!["1".to_string(), "name".to_string(), "x".to_string()];
    match vec_change_action(2, "v", &local, PropertyChange::Value) {
        VecChangeAction::Descend(i, rest) => {
            assert_eq!(i, 1);
            assert_eq!(rest, vec!["name".to_string(), "x".to_string()]);
        },
        _ => panic!("expected to descend"),
    }
    let local = vec!["name".to_string()];
    assert!(matches!(vec_change_action(2, "v", &local, PropertyChange::Value), VecChangeAction::Ignore));
}
