use vstd::prelude::*;
use vstd::string::*;

verus! {

/// What a key pressed over a 3D view does before the view's control sees it.
#[derive(PartialEq, Eq, Structural, Clone, Copy, Debug)]
pub enum ViewKeyAction {
    /// "Return": show the list of scene commands.
    ShowCommands,
    /// "t": show or hide the object tree.
    ToggleTree,
    /// "p": show or hide the property panel.
    TogglePanel,
    /// "a": show or hide the action bar.
    ToggleAction,
    /// "c": put the camera back in front of the origin.
    CenterCamera,
    /// "f": put the camera in front of the selected objects.
    FrameSelection,
    /// Any other key: the view's control handles it.
    PassToControl,
}

/// What the key named `key` does over a view.
pub open spec fn view_key_spec(key: Seq<char>) -> ViewKeyAction {
    if key == "Return"@ {
        ViewKeyAction::ShowCommands
    } else if key == "t"@ {
        ViewKeyAction::ToggleTree
    } else if key == "p"@ {
        ViewKeyAction::TogglePanel
    } else if key == "a"@ {
        ViewKeyAction::ToggleAction
    } else if key == "c"@ {
        ViewKeyAction::CenterCamera
    } else if key == "f"@ {
        ViewKeyAction::FrameSelection
    } else {
        ViewKeyAction::PassToControl
    }
}

fn str_is(s: &str, lit: &str) -> (r: bool)
    ensures
        r == (s@ == lit@),
{
    let a = String::from_str(s);
    let b = String::from_str(lit);
    a == b
}

/// What the key named `key` does over a view (see `view_key_spec`).
pub fn view_key_action(key: &str) -> (a: ViewKeyAction)
    ensures
        a == view_key_spec(key@),
{
    if str_is(key, "Return") {
        ViewKeyAction::ShowCommands
    } else if str_is(key, "t") {
        ViewKeyAction::ToggleTree
    } else if str_is(key, "p") {
        ViewKeyAction::TogglePanel
    } else if str_is(key, "a") {
        ViewKeyAction::ToggleAction
    } else if str_is(key, "c") {
        ViewKeyAction::CenterCamera
    } else if str_is(key, "f") {
        ViewKeyAction::FrameSelection
    } else {
        ViewKeyAction::PassToControl
    }
}

/// The scene a view opens at start.
pub enum SceneChoice {
    /// The scene of this name or file.
    Open(String),
    /// A new, empty scene.
    New,
}

/// The scene a view opens at start: the one its saved configuration
/// names; else, where no scene is loaded yet, the first scene file found,
/// or a new scene where there is none; else the first loaded scene.
pub fn initial_scene(
    configured: Option<String>,
    loaded_first: Option<String>,
    first_file: Option<String>,
) -> (c: SceneChoice)
    ensures
        match configured {
            Some(n) => c matches SceneChoice::Open(m) && m == n,
            None => match loaded_first {
                Some(n) => c matches SceneChoice::Open(m) && m == n,
                None => match first_file {
                    Some(f) => c matches SceneChoice::Open(m) && m == f,
                    None => c is New,
                },
            },
        },
{
    match configured {
        Some(n) => SceneChoice::Open(n),
        None => match loaded_first {
            Some(n) => SceneChoice::Open(n),
            None => match first_file {
                Some(f) => SceneChoice::Open(f),
                None => SceneChoice::New,
            },
        },
    }
}

} // verus!
