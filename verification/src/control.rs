use vstd::prelude::*;
use vstd::string::*;

use crate::context::{copy_ids, ids_without, Context};
use crate::operation::Change;
use crate::scene::{find_many, without, ObjectId};

verus! {

/// What the mouse is doing in the 3d view.
#[derive(PartialEq, Eq, Structural, Clone, Copy, Debug)]
pub enum State {
    Idle,
    CameraRotation,
    Dragger,
    MultipleSelect,
}

/// The decisions of the 3d view on mouse and keyboard input: its state, and
/// where a rectangle selection started.
pub struct Control {
    pub state: State,
    pub mouse_start: Option<(i32, i32)>,
}

/// What the caller is to do once the mouse button is up.
pub enum MouseUpAction {
    /// Report this change.
    Done(Change),
    /// Ask the draggers what the drag did to the selection.
    DraggerRelease,
    /// Pick the object under the mouse (see `Control::picked`).
    Pick,
}

/// What the caller is to do when the mouse moves.
pub enum MouseMoveAction {
    /// Check which dragger the mouse is over; with `button` 1, also set the
    /// draggers idle and move the camera (see `CameraMove`).
    Hover(CameraMove),
    /// Ask the draggers what the drag does, the mouse being at this place.
    DraggerDrag(i32, i32),
    /// The rectangle selection spans from (x, y), this wide and high:
    /// report it and select the objects in it.
    SelectRect(i64, i64, i64, i64),
    Nothing,
}

/// How the camera follows the mouse while hovering.
pub enum CameraMove {
    Still,
    /// Pan by the mouse move (x, y).
    Pan(i64, i64),
    /// Rotate by the mouse move (x, y).
    Rotate(i64, i64),
}

/// What a key does.
pub struct KeyAction {
    pub change: Change,
    /// How far the camera moves along x, y, z.
    pub camera_move: (i32, i32, i32),
    /// Whether the draggers switch to their next kind.
    pub dragger_change: bool,
}

/// The shift key is down.
pub open spec fn shift_down(modifier: i32) -> bool {
    modifier & 1 != 0
}

/// The control key is down.
pub open spec fn control_down(modifier: i32) -> bool {
    modifier & 2 != 0
}

/// The rectangle between two mouse places: the smaller corner, then width
/// and height.
pub open spec fn rect_between(start: (i32, i32), cur: (i32, i32)) -> (int, int, int, int) {
    let (sx, w) = if cur.0 < start.0 {
        (cur.0 as int, start.0 - cur.0)
    } else {
        (start.0 as int, cur.0 - start.0)
    };
    let (sy, h) = if cur.1 < start.1 {
        (cur.1 as int, start.1 - cur.1)
    } else {
        (start.1 as int, cur.1 - start.1)
    };
    (sx, sy, w, h)
}

/// How far the camera moves for a key, and what the key reports.
pub open spec fn key_move(key: Seq<char>) -> (i32, i32, i32) {
    if key == "e"@ {
        (0, 0, -50i32)
    } else if key == "d"@ {
        (0, 0, 50)
    } else if key == "f"@ {
        (50, 0, 0)
    } else if key == "s"@ {
        (-50i32, 0, 0)
    } else {
        (0, 0, 0)
    }
}

/// The rectangle of a selection is the box spanned by where it started and
/// where the mouse is: its corner is the smaller of the two places on each
/// axis, its width and height how far apart they are.
pub proof fn law_rect_spans_start_and_mouse(start: (i32, i32), cur: (i32, i32))
    ensures
        rect_between(start, cur).0 == vstd::math::min(start.0 as int, cur.0 as int),
        rect_between(start, cur).1 == vstd::math::min(start.1 as int, cur.1 as int),
        rect_between(start, cur).2 == vstd::math::abs(cur.0 - start.0),
        rect_between(start, cur).3 == vstd::math::abs(cur.1 - start.1),
        rect_between(start, cur).0 <= start.0 && rect_between(start, cur).0 <= cur.0,
        rect_between(start, cur).1 <= start.1 && rect_between(start, cur).1 <= cur.1,
        rect_between(start, cur).0 + rect_between(start, cur).2 == if start.0 < cur.0 {
            cur.0 as int
        } else {
            start.0 as int
        },
        rect_between(start, cur).1 + rect_between(start, cur).3 == if start.1 < cur.1 {
            cur.1 as int
        } else {
            start.1 as int
        },
{
}

/// The camera keys: "e" moves the camera forward (along -z) and "d" back
/// by as much, "f" to the right (along +x) and "s" to the left by as much;
/// each moves it along one axis only.
pub proof fn law_camera_keys()
    ensures
        key_move("e"@) == (0i32, 0i32, -50i32),
        key_move("d"@) == (0i32, 0i32, 50i32),
        key_move("f"@) == (50i32, 0i32, 0i32),
        key_move("s"@) == (-50i32, 0i32, 0i32),
        key_move("d"@).2 == -key_move("e"@).2,
        key_move("s"@).0 == -key_move("f"@).0,
{
    lemma_keys_distinct();
}

/// The one-letter keys differ from each other.
proof fn lemma_keys_distinct()
    ensures
        "e"@.len() == 1 && "d"@.len() == 1 && "f"@.len() == 1 && "s"@.len() == 1,
        "z"@.len() == 1 && "r"@.len() == 1,
        "e"@[0] == 'e' && "d"@[0] == 'd' && "f"@[0] == 'f' && "s"@[0] == 's',
        "z"@[0] == 'z' && "r"@[0] == 'r',
        "d"@ != "e"@ && "f"@ != "e"@ && "f"@ != "d"@,
        "s"@ != "e"@ && "s"@ != "d"@ && "s"@ != "f"@,
        "e"@ != "z"@ && "d"@ != "z"@ && "f"@ != "z"@ && "s"@ != "z"@,
        "e"@ != "r"@ && "d"@ != "r"@ && "f"@ != "r"@ && "s"@ != "r"@,
{
    reveal_strlit("e");
    reveal_strlit("d");
    reveal_strlit("f");
    reveal_strlit("s");
    reveal_strlit("z");
    reveal_strlit("r");
    assert("d"@[0] != "e"@[0]);
    assert("f"@[0] != "e"@[0]);
    assert("f"@[0] != "d"@[0]);
    assert("s"@[0] != "e"@[0]);
    assert("s"@[0] != "d"@[0]);
    assert("s"@[0] != "f"@[0]);
    assert("e"@[0] != "z"@[0]);
    assert("d"@[0] != "z"@[0]);
    assert("f"@[0] != "z"@[0]);
    assert("s"@[0] != "z"@[0]);
    assert("e"@[0] != "r"@[0]);
    assert("d"@[0] != "r"@[0]);
    assert("f"@[0] != "r"@[0]);
    assert("s"@[0] != "r"@[0]);
}

fn is_key(key: &str, lit: &str) -> (r: bool)
    ensures
        r == (key@ == lit@),
{
    let a = String::from_str(key);
    let b = String::from_str(lit);
    a == b
}

impl Control {
    /// A control at rest.
    pub fn new() -> (c: Control)
        ensures
            c.state == State::Idle,
            c.mouse_start is None,
    {
        Control { state: State::Idle, mouse_start: None }
    }

    /// Whether, on a button press, the caller is to ask the draggers whether
    /// one was clicked: without control (or with shift), where something is
    /// selected.
    pub fn needs_dragger_check(&self, context: &Context, modifier: i32) -> (r: bool)
        ensures
            r == ((shift_down(modifier) || !control_down(modifier)) && context.selected@.len()
                > 0),
    {
        (modifier & 1 != 0 || modifier & 2 == 0) && context.selected.len() > 0
    }

    /// A mouse button went down at (x, y). With control (and no shift), a
    /// rectangle selection starts there; else, where something is selected
    /// and a dragger was clicked (as the draggers said), a drag starts.
    pub fn mouse_down(
        &mut self,
        context: &Context,
        modifier: i32,
        button: i32,
        x: i32,
        y: i32,
        timestamp: i32,
        dragger_clicked: bool,
    ) -> (list: Vec<Change>)
        ensures
            !shift_down(modifier) && control_down(modifier) ==> {
                &&& final(self).state == State::MultipleSelect
                &&& final(self).mouse_start == Some((x, y))
                &&& list@.len() == 2
                &&& list@[0] matches Change::RectVisibleSet(v) && v
                &&& list@[1] matches Change::RectSet(a, b, w, h) && a == x && b == y && w == 1
                    && h == 1
            },
            !(!shift_down(modifier) && control_down(modifier)) ==> {
                &&& final(self).mouse_start == old(self).mouse_start
                &&& if context.selected@.len() > 0 && dragger_clicked {
                    &&& final(self).state == State::Dragger
                    &&& list@.len() == 1
                    &&& list@[0] is DraggerClicked
                } else {
                    &&& final(self).state == old(self).state
                    &&& list@.len() == 0
                }
            },
    {
        let mut list: Vec<Change> = Vec::new();
        if modifier & 1 != 0 {
        } else if modifier & 2 != 0 {
            self.mouse_start = Some((x, y));
            self.state = State::MultipleSelect;
            list.push(Change::RectVisibleSet(true));
            list.push(Change::RectSet(x as i64, y as i64, 1, 1));
            return list;
        }
        if context.selected.len() > 0 && dragger_clicked {
            self.state = State::Dragger;
            list.push(Change::DraggerClicked);
        }
        list
    }

    /// A mouse button went up: the control comes back to rest; what follows
    /// depends on what the mouse was doing.
    pub fn mouse_up(&mut self, context: &Context) -> (a: MouseUpAction)
        ensures
            final(self).state == State::Idle,
            final(self).mouse_start == old(self).mouse_start,
            match old(self).state {
                State::CameraRotation => a matches MouseUpAction::Done(c) && c is Unchanged,
                State::Dragger => a is DraggerRelease,
                State::MultipleSelect => a matches MouseUpAction::Done(c) && c matches Change::RectVisibleSet(v) && !v,
                State::Idle => if context.scene is None {
                    a matches MouseUpAction::Done(c) && c is Unchanged
                } else {
                    a is Pick
                },
            },
    {
        match self.state {
            State::CameraRotation => {
                self.state = State::Idle;
                MouseUpAction::Done(Change::Unchanged)
            },
            State::Dragger => {
                self.state = State::Idle;
                MouseUpAction::DraggerRelease
            },
            State::MultipleSelect => {
                self.state = State::Idle;
                MouseUpAction::Done(Change::RectVisibleSet(false))
            },
            State::Idle => {
                match &context.scene {
                    None => MouseUpAction::Done(Change::Unchanged),
                    Some(_) => MouseUpAction::Pick,
                }
            },
        }
    }

    /// The selection that a pick gives: the object hit closest, if any.
    pub fn picked(closest: Option<ObjectId>) -> (c: Change)
        ensures
            c matches Change::ChangeSelected(ids) && ids@ == match closest {
                Some(id) => seq![id],
                None => Seq::<ObjectId>::empty(),
            },
    {
        let mut list: Vec<ObjectId> = Vec::new();
        match closest {
            Some(id) => list.push(id),
            None => {},
        }
        assert(list@ =~= match closest {
            Some(id) => seq![id],
            None => Seq::<ObjectId>::empty(),
        });
        Change::ChangeSelected(list)
    }

    /// The mouse moved from (prevx, prevy) to (curx, cury) with `button`
    /// down. At rest or rotating the camera, the draggers are hovered; with
    /// button 1, the camera pans (with shift) or rotates (else; the control
    /// is then rotating the camera). A drag goes on; a rectangle selection
    /// grows from where it started to the mouse.
    pub fn mouse_move(
        &mut self,
        mod_flag: i32,
        button: i32,
        curx: i32,
        cury: i32,
        prevx: i32,
        prevy: i32,
        timestamp: i32,
    ) -> (a: MouseMoveAction)
        ensures
            final(self).mouse_start == old(self).mouse_start,
            match old(self).state {
                State::Idle | State::CameraRotation => if button == 1 {
                    if shift_down(mod_flag) {
                        &&& final(self).state == old(self).state
                        &&& a matches MouseMoveAction::Hover(CameraMove::Pan(dx, dy)) && dx == curx
                            - prevx && dy == cury - prevy
                    } else {
                        &&& final(self).state == State::CameraRotation
                        &&& a matches MouseMoveAction::Hover(CameraMove::Rotate(dx, dy)) && dx
                            == curx - prevx && dy == cury - prevy
                    }
                } else {
                    &&& final(self).state == old(self).state
                    &&& a matches MouseMoveAction::Hover(CameraMove::Still)
                },
                State::Dragger => {
                    &&& final(self).state == old(self).state
                    &&& a matches MouseMoveAction::DraggerDrag(x, y) && x == curx && y == cury
                },
                State::MultipleSelect => {
                    &&& final(self).state == old(self).state
                    &&& match old(self).mouse_start {
                        Some(s) => a matches MouseMoveAction::SelectRect(sx, sy, w, h) && (
                            sx as int,
                            sy as int,
                            w as int,
                            h as int,
                        ) == rect_between(s, (curx, cury)),
                        None => a is Nothing,
                    }
                },
            },
            old(self).state is MultipleSelect ==> match old(self).mouse_start {
                Some(s) => a matches MouseMoveAction::SelectRect(sx, sy, w, h) && {
                    &&& sx as int == vstd::math::min(s.0 as int, curx as int)
                    &&& sy as int == vstd::math::min(s.1 as int, cury as int)
                    &&& w as int == vstd::math::abs(curx - s.0)
                    &&& h as int == vstd::math::abs(cury - s.1)
                },
                None => a is Nothing,
            },
    {
        proof {
            if let Some(s) = self.mouse_start {
                law_rect_spans_start_and_mouse(s, (curx, cury));
            }
        }
        match self.state {
            State::Idle | State::CameraRotation => {
                if button == 1 {
                    let dx = curx as i64 - prevx as i64;
                    let dy = cury as i64 - prevy as i64;
                    if mod_flag & 1 != 0 {
                        MouseMoveAction::Hover(CameraMove::Pan(dx, dy))
                    } else {
                        self.state = State::CameraRotation;
                        MouseMoveAction::Hover(CameraMove::Rotate(dx, dy))
                    }
                } else {
                    MouseMoveAction::Hover(CameraMove::Still)
                }
            },
            State::Dragger => MouseMoveAction::DraggerDrag(curx, cury),
            State::MultipleSelect => {
                match self.mouse_start {
                    Some((ex, ey)) => {
                        let x = curx as i64;
                        let y = cury as i64;
                        let ex = ex as i64;
                        let ey = ey as i64;
                        let (startx, endx) = if x < ex {
                            (x, ex - x)
                        } else {
                            (ex, x - ex)
                        };
                        let (starty, endy) = if y < ey {
                            (y, ey - y)
                        } else {
                            (ey, y - ey)
                        };
                        MouseMoveAction::SelectRect(startx, starty, endx, endy)
                    },
                    None => MouseMoveAction::Nothing,
                }
            },
        }
    }

    /// A key went down: "e", "d", "f", "s" move the camera; "z" asks to undo
    /// and "r" to redo (the camera stays); "space" switches the draggers.
    pub fn key_down(&mut self, modifier: i32, keyname: &str, key: &str, timestamp: i32) -> (a:
        KeyAction)
        ensures
            final(self).state == old(self).state,
            final(self).mouse_start == old(self).mouse_start,
            if key@ == "z"@ {
                a.change is Undo && a.camera_move == (0i32, 0i32, 0i32) && !a.dragger_change
            } else if key@ == "r"@ {
                a.change is Redo && a.camera_move == (0i32, 0i32, 0i32) && !a.dragger_change
            } else {
                &&& a.change is Unchanged
                &&& a.camera_move == key_move(key@)
                &&& a.dragger_change == (key@ == "space"@)
            },
            key@ == "e"@ ==> a.camera_move == (0i32, 0i32, -50i32),
            key@ == "d"@ ==> a.camera_move == (0i32, 0i32, 50i32),
            key@ == "f"@ ==> a.camera_move == (50i32, 0i32, 0i32),
            key@ == "s"@ ==> a.camera_move == (-50i32, 0i32, 0i32),
    {
        proof {
            law_camera_keys();
            lemma_keys_distinct();
        }
        proof {
            reveal_strlit("z");
            reveal_strlit("r");
            reveal_strlit("e");
            reveal_strlit("d");
            reveal_strlit("f");
            reveal_strlit("s");
            reveal_strlit("space");
        }
        if is_key(key, "z") {
            return KeyAction { change: Change::Undo, camera_move: (0, 0, 0), dragger_change: false };
        }
        if is_key(key, "r") {
            return KeyAction { change: Change::Redo, camera_move: (0, 0, 0), dragger_change: false };
        }
        let t: (i32, i32, i32) = if is_key(key, "e") {
            (0, 0, -50i32)
        } else if is_key(key, "d") {
            (0, 0, 50)
        } else if is_key(key, "f") {
            (50, 0, 0)
        } else if is_key(key, "s") {
            (-50i32, 0, 0)
        } else {
            (0, 0, 0)
        };
        let dragger_change = is_key(key, "space");
        KeyAction { change: Change::Unchanged, camera_move: t, dragger_change }
    }

    /// Selects, after those selected, the objects of `ids` found in the
    /// scene (see `find_many`); the ids found leave `ids`. Without a scene,
    /// nothing happens.
    pub fn select_by_id(&mut self, context: &mut Context, ids: &mut Vec<ObjectId>)
        ensures
            final(context).scene == old(context).scene,
            match old(context).scene {
                Some(s) => {
                    &&& final(context).selected@ == old(context).selected@ + find_many(
                        s.objects@,
                        old(ids)@,
                    ).0
                    &&& final(ids)@ == find_many(s.objects@, old(ids)@).1
                },
                None => final(context).selected@ == old(context).selected@ && final(ids)@ == old(
                    ids,
                )@,
            },
    {
        let found = match &context.scene {
            Some(s) => s.find_objects_by_id(ids),
            None => {
                return;
            },
        };
        let mut found = found;
        context.selected.append(&mut found);
    }

    /// Unselects the objects of `ids`. Without a scene, nothing happens.
    pub fn unselect(&mut self, context: &mut Context, ids: &Vec<ObjectId>)
        ensures
            final(context).scene == old(context).scene,
            old(context).scene is Some ==> final(context).selected@ == without(
                old(context).selected@,
                ids@,
            ),
            old(context).scene is None ==> final(context).selected@ == old(context).selected@,
    {
        if context.scene.is_none() {
            return;
        }
        context.selected = ids_without(&context.selected, ids);
    }

    /// The first selected object, if any.
    pub fn get_selected_object(&self, context: &Context) -> (r: Option<ObjectId>)
        ensures
            r == if context.selected@.len() > 0 {
                Some(context.selected@[0])
            } else {
                None
            },
    {
        if context.selected.len() > 0 {
            Some(context.selected[0])
        } else {
            None
        }
    }

    /// The selected objects, in order.
    pub fn get_selected_objects(&self, context: &Context) -> (r: Vec<ObjectId>)
        ensures
            r@ == context.selected@,
    {
        copy_ids(&context.selected)
    }
}

} // verus!
