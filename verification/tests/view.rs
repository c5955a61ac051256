use dormin::view::{initial_scene, view_key_action, SceneChoice, ViewKeyAction};

#[test]
fn keys_over_a_view() {
    assert_eq!(view_key_action("Return"), ViewKeyAction::ShowCommands);
    assert_eq!(view_key_action("t"), ViewKeyAction::ToggleTree);
    assert_eq!(view_key_action("p"), ViewKeyAction::TogglePanel);
    assert_eq!(view_key_action("a"), ViewKeyAction::ToggleAction);
    assert_eq!(view_key_action("c"), ViewKeyAction::CenterCamera);
    assert_eq!(view_key_action("f"), ViewKeyAction::FrameSelection);
    assert_eq!(view_key_action("e"), ViewKeyAction::PassToControl);
    assert_eq!(view_key_action("return"), ViewKeyAction::PassToControl);
}

fn opened(c: SceneChoice) -> Option<String> {
    match c {
        SceneChoice::Open(n) => Some(n),
        SceneChoice::New => None,
    }
}

#[test]
fn the_scene_a_view_opens() {
    let s = |x: &str| Some(x.to_string());
    assert_eq!(opened(initial_scene(s("scene/a"), s("scene/b"), s("scene/c"))), s("scene/a"));
    assert_eq!(opened(initial_scene(None, s("scene/b"), s("scene/c"))), s("scene/b"));
    assert_eq!(opened(initial_scene(None, None, s("scene/c"))), s("scene/c"));
    assert_eq!(opened(initial_scene(None, None, None)), None);
}
