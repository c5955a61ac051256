use vstd::prelude::*;
use vstd::string::*;

use crate::number::{decimal, index_to_string, parse_usize, parse_usize_spec};

verus! {

/// Where a window of the editor stands, how large it is, and whether it shows.
#[derive(Clone, Copy, PartialEq, Eq, Structural, Debug)]
pub struct WidgetConfig {
    pub visible: bool,
    pub x: i32,
    pub y: i32,
    pub w: i32,
    pub h: i32,
}

impl WidgetConfig {
    /// The configuration of a window with the geometry `(x, y, w, h)` that
    /// the toolkit reports for it, shown.
    pub fn new_from_obj(geometry: (i32, i32, i32, i32)) -> (c: WidgetConfig)
        ensures
            c == (WidgetConfig {
                visible: true,
                x: geometry.0,
                y: geometry.1,
                w: geometry.2,
                h: geometry.3,
            }),
    {
        let (x, y, w, h) = geometry;
        WidgetConfig { x, y, w, h, visible: true }
    }

    /// The configuration of a window that has none saved: shown, at (10, 10),
    /// 300 wide and 400 high.
    pub fn new() -> (c: WidgetConfig)
        ensures
            c == (WidgetConfig { visible: true, x: 10, y: 10, w: 300, h: 400 }),
    {
        WidgetConfig { x: 10, y: 10, w: 300, h: 400, visible: true }
    }
}

/// The configuration of the property window: its geometry, and the paths of
/// the properties the user has unfolded.
#[derive(Clone)]
pub struct PropertyConfig {
    visible: bool,
    x: i32,
    y: i32,
    w: i32,
    h: i32,
    expand: Vec<String>,
}

pub struct PropertyConfigView {
    pub geometry: WidgetConfig,
    pub expand: Seq<Seq<char>>,
}

impl View for PropertyConfig {
    type V = PropertyConfigView;

    closed spec fn view(&self) -> PropertyConfigView {
        PropertyConfigView {
            geometry: WidgetConfig {
                visible: self.visible,
                x: self.x,
                y: self.y,
                w: self.w,
                h: self.h,
            },
            expand: self.expand@.map_values(|s: String| s@),
        }
    }
}

impl PropertyConfig {
    /// The configuration of a property window that has none saved: shown,
    /// at (10, 10), 100 wide and 400 high, nothing unfolded.
    pub fn new() -> (c: PropertyConfig)
        ensures
            c@.geometry == (WidgetConfig { visible: true, x: 10, y: 10, w: 100, h: 400 }),
            c@.expand == Seq::<Seq<char>>::empty(),
    {
        let c = PropertyConfig { visible: true, x: 10, y: 10, w: 100, h: 400, expand: Vec::new() };
        assert(c@.expand =~= Seq::<Seq<char>>::empty());
        c
    }
}

/// What changed in a property: its value, or an item added to or removed
/// from a vector at an index.
#[derive(Clone, Copy, PartialEq, Eq, Structural, Debug)]
pub enum PropertyChange {
    Value,
    VecAdd(usize),
    VecDel(usize),
}

/// What has to be redone after a property changed.
#[derive(Clone, Copy, PartialEq, Eq, Structural, Debug)]
pub enum ShouldUpdate {
    Nothing,
    Mesh,
}

/// What the widgets of a vector property do about a change: show a new
/// item, or drop one, at the given path and index; or pass the change on to
/// the item at an index, with the rest of the path; or nothing.
pub enum VecChangeAction {
    AddItem(String, usize),
    DelItem(String, usize),
    Descend(usize, Vec<String>),
    Ignore,
}

/// The path of the item at `index` of the vector at `path`.
pub open spec fn item_path(path: Seq<char>, index: nat) -> Seq<char> {
    path + seq!['/'] + decimal(index)
}

/// Whether a change can reach the widgets of a vector of `len` items at
/// the remaining path `local`: a change of the vector's own value cannot,
/// nor an index past the end.
pub open spec fn vec_change_ok(len: nat, local: Seq<Seq<char>>, change: PropertyChange) -> bool {
    if local.len() == 0 {
        match change {
            PropertyChange::Value => false,
            PropertyChange::VecAdd(i) => i < len,
            PropertyChange::VecDel(_) => true,
        }
    } else {
        match parse_usize_spec(local[0]) {
            Some(i) => i < len,
            None => true,
        }
    }
}

/// The path of `index` below `path`.
fn make_item_path(path: &str, index: usize) -> (s: String)
    ensures
        s@ == item_path(path@, index as nat),
{
    let mut s = String::from_str(path);
    proof {
        reveal_strlit("/");
    }
    s.append("/");
    let n = index_to_string(index);
    s.append(n.as_str());
    s
}

/// What the widgets of a vector of `len` items, shown at `all_path`, do
/// about `change`, which reached them with `local_path` left: where nothing
/// is left, the item named by the change is added or dropped; else the
/// change goes on to the item whose index the first component names (and is
/// dropped where that is not an index).
pub fn vec_change_action(
    len: usize,
    all_path: &str,
    local_path: &Vec<String>,
    change: PropertyChange,
) -> (a: VecChangeAction)
    requires
        vec_change_ok(len as nat, local_path@.map_values(|s: String| s@), change),
    ensures
        local_path@.len() == 0 ==> match change {
            PropertyChange::VecAdd(i) => a matches VecChangeAction::AddItem(p, j) && j == i
                && p@ == item_path(all_path@, i as nat),
            PropertyChange::VecDel(i) => a matches VecChangeAction::DelItem(p, j) && j == i
                && p@ == item_path(all_path@, i as nat),
            PropertyChange::Value => false,
        },
        local_path@.len() > 0 ==> match parse_usize_spec(local_path@[0]@) {
            Some(i) => a matches VecChangeAction::Descend(j, rest) && j == i && rest@.map_values(
                |s: String| s@,
            ) == local_path@.skip(1).map_values(|s: String| s@),
            None => a is Ignore,
        },
{
    if local_path.len() == 0 {
        match change {
            PropertyChange::VecAdd(index) => VecChangeAction::AddItem(
                make_item_path(all_path, index),
                index,
            ),
            PropertyChange::VecDel(index) => VecChangeAction::DelItem(
                make_item_path(all_path, index),
                index,
            ),
            PropertyChange::Value => {
                assert(false);
                VecChangeAction::Ignore
            },
        }
    } else {
        proof {
            assert(local_path@.map_values(|s: String| s@)[0] == local_path@[0]@);
        }
        match parse_usize(local_path[0].as_str()) {
            Some(index) => {
                let mut rest: Vec<String> = Vec::new();
                let mut k: usize = 1;
                while k < local_path.len()
                    invariant
                        1 <= k <= local_path.len(),
                        rest@.len() == k - 1,
                        forall|i: int| 0 <= i < rest@.len() ==> #[trigger] rest@[i]@ == local_path@[i + 1]@,
                    decreases local_path.len() - k,
                {
                    let item = local_path[k].clone();
                    rest.push(item);
                    k = k + 1;
                }
                proof {
                    let m = rest@.map_values(|s: String| s@);
                    let want = local_path@.skip(1).map_values(|s: String| s@);
                    assert forall|i: int| 0 <= i < m.len() implies m[i] == want[i] by {
                        assert(rest@[i]@ == local_path@[i + 1]@);
                    }
                    assert(m =~= want);
                }
                VecChangeAction::Descend(index, rest)
            },
            None => VecChangeAction::Ignore,
        }
    }
}

} // verus!
