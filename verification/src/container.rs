use vstd::prelude::*;
use vstd::string::*;

use crate::context::{copy_ids, Context};
use crate::operation::Change;
use crate::scene::{find_many, first_with_id, flatten, without, ObjectId, Scene};

verus! {

/// Identifies a widget of the editor: the 128 bits of its UUID.
pub type WidgetId = u128;

/// The widgets that show the scene, where the editor has them: the tree of
/// objects and the property box.
#[derive(Clone, Copy)]
pub struct Widgets {
    pub tree: Option<WidgetId>,
    pub property: Option<WidgetId>,
}

/// What the editor does in answer to a change: which widget to refresh and
/// how, which mesh renderer to rebuild, which operation to undo or redo.
#[derive(Debug)]
pub enum UiAction {
    /// The tree shows the object anew (its name changed).
    TreeUpdateObject(ObjectId),
    /// The tree selects these objects.
    TreeSelect(Vec<ObjectId>),
    /// The tree drops these objects.
    TreeRemove(Vec<ObjectId>),
    /// The tree adds these objects.
    TreeAdd(Vec<ObjectId>),
    /// The property box shows anew the property at this path of the object.
    PropertyUpdateProperty(ObjectId, String),
    /// The property box shows the object anew.
    PropertyUpdateObject(ObjectId),
    /// The property box shows the scene.
    PropertyShowScene,
    /// The property box shows nothing.
    PropertyShowNothing,
    /// The property box shows the object.
    PropertyShowObject(ObjectId),
    /// The object's mesh renderer is made anew from its mesh render data.
    MeshRenderUpdate(ObjectId),
    /// The last operation is undone; its change is then handled.
    Undo,
    /// The last undone operation is done again; its change is then handled.
    Redo,
    /// The views and the game view are drawn again.
    ViewsUpdate,
}

/// A `UiAction` with its texts and lists as sequences.
pub enum ActionView {
    TreeUpdateObject(ObjectId),
    TreeSelect(Seq<ObjectId>),
    TreeRemove(Seq<ObjectId>),
    TreeAdd(Seq<ObjectId>),
    PropertyUpdateProperty(ObjectId, Seq<char>),
    PropertyUpdateObject(ObjectId),
    PropertyShowScene,
    PropertyShowNothing,
    PropertyShowObject(ObjectId),
    MeshRenderUpdate(ObjectId),
    Undo,
    Redo,
    ViewsUpdate,
}

impl View for UiAction {
    type V = ActionView;

    open spec fn view(&self) -> ActionView {
        match self {
            UiAction::TreeUpdateObject(id) => ActionView::TreeUpdateObject(*id),
            UiAction::TreeSelect(ids) => ActionView::TreeSelect(ids@),
            UiAction::TreeRemove(ids) => ActionView::TreeRemove(ids@),
            UiAction::TreeAdd(ids) => ActionView::TreeAdd(ids@),
            UiAction::PropertyUpdateProperty(id, s) => ActionView::PropertyUpdateProperty(*id, s@),
            UiAction::PropertyUpdateObject(id) => ActionView::PropertyUpdateObject(*id),
            UiAction::PropertyShowScene => ActionView::PropertyShowScene,
            UiAction::PropertyShowNothing => ActionView::PropertyShowNothing,
            UiAction::PropertyShowObject(id) => ActionView::PropertyShowObject(*id),
            UiAction::MeshRenderUpdate(id) => ActionView::MeshRenderUpdate(*id),
            UiAction::Undo => ActionView::Undo,
            UiAction::Redo => ActionView::Redo,
            UiAction::ViewsUpdate => ActionView::ViewsUpdate,
        }
    }
}

/// The actions of `acts`, each by its view.
pub open spec fn actions_view(acts: Seq<UiAction>) -> Seq<ActionView> {
    acts.map_values(|a: UiAction| a@)
}

/// Whether the tree is to hear of a change that came from widget `origin`:
/// there is a tree, and the change did not come from it.
pub open spec fn tree_hears(w: Widgets, origin: WidgetId) -> bool {
    w.tree matches Some(t) && t != origin
}

/// Whether the property box is to hear of a change that came from widget
/// `origin`.
pub open spec fn property_hears(w: Widgets, origin: WidgetId) -> bool {
    w.property matches Some(p) && p != origin
}

/// Whether a property path lies in the mesh render data of an object.
pub open spec fn is_mesh_path(path: Seq<char>) -> bool {
    "comp_data/MeshRender"@.is_prefix_of(path)
}

/// Whether the scene holds an object with id `id`, at any depth.
pub open spec fn scene_has(scene: Option<Scene>, id: ObjectId) -> bool {
    match scene {
        Some(s) => first_with_id(flatten(s.objects@), id) is Some,
        None => false,
    }
}

/// The first selected object, if any.
pub open spec fn first_selected(sel: Seq<ObjectId>) -> Option<ObjectId> {
    if sel.len() > 0 {
        Some(sel[0])
    } else {
        None
    }
}

/// One action where `cond` holds, none otherwise.
pub open spec fn act_if(cond: bool, a: ActionView) -> Seq<ActionView> {
    if cond {
        seq![a]
    } else {
        seq![]
    }
}

/// The answer to a change of the selection to `sel`: the tree selects it;
/// the property box shows the scene when nothing is selected (whichever
/// widget the change came from), else nothing when several objects are
/// selected, else the one selected object; then the views are drawn.
pub open spec fn selection_actions(
    sel: Seq<ObjectId>,
    has_scene: bool,
    w: Widgets,
    origin: WidgetId,
) -> Seq<ActionView> {
    let prop = if sel.len() == 0 {
        act_if(w.property is Some && has_scene, ActionView::PropertyShowScene)
    } else if sel.len() != 1 {
        act_if(property_hears(w, origin), ActionView::PropertyShowNothing)
    } else {
        act_if(property_hears(w, origin), ActionView::PropertyShowObject(sel[0]))
    };
    act_if(tree_hears(w, origin), ActionView::TreeSelect(sel)) + prop + seq![
        ActionView::ViewsUpdate,
    ]
}

/// The answer, for one object `id`, to a change of the property at `path`
/// on several objects: a new name goes to the tree; a change of the mesh
/// render data rebuilds the object's mesh renderer where the scene holds
/// the object; and the property box shows the object anew where it is the
/// first selected one.
pub open spec fn object_actions(
    path: Seq<char>,
    id: ObjectId,
    first: Option<ObjectId>,
    scene: Option<Scene>,
    w: Widgets,
    origin: WidgetId,
) -> Seq<ActionView> {
    let own = if path == "name"@ {
        act_if(tree_hears(w, origin), ActionView::TreeUpdateObject(id))
    } else {
        act_if(is_mesh_path(path) && scene_has(scene, id), ActionView::MeshRenderUpdate(id))
    };
    own + act_if(first == Some(id) && property_hears(w, origin), ActionView::PropertyUpdateObject(id))
}

/// `object_actions` for each of `ids`, in order.
pub open spec fn objects_actions(
    path: Seq<char>,
    ids: Seq<ObjectId>,
    first: Option<ObjectId>,
    scene: Option<Scene>,
    w: Widgets,
    origin: WidgetId,
) -> Seq<ActionView>
    decreases ids.len(),
{
    if ids.len() == 0 {
        seq![]
    } else {
        objects_actions(path, ids.drop_last(), first, scene, w, origin) + object_actions(
            path,
            ids.last(),
            first,
            scene,
            w,
            origin,
        )
    }
}

/// The answer to a property at `path` set straight on the first selected
/// object `o`: a new name goes to the tree, a change of the mesh render
/// data rebuilds its mesh renderer, the property box shows the property
/// anew, and the views are drawn.
pub open spec fn direct_actions(path: Seq<char>, o: ObjectId, w: Widgets, origin: WidgetId) -> Seq<
    ActionView,
> {
    act_if(path == "name"@ && tree_hears(w, origin), ActionView::TreeUpdateObject(o)) + act_if(
        is_mesh_path(path),
        ActionView::MeshRenderUpdate(o),
    ) + act_if(property_hears(w, origin), ActionView::PropertyUpdateProperty(o, path)) + seq![
        ActionView::ViewsUpdate,
    ]
}

/// What the editor does in answer to `change`, coming from widget `origin`,
/// with `sel` selected in `scene`. Nothing for no change, for a direct
/// change with nothing selected, and for objects added with no scene.
/// Where the answer to a change is that of another change, that answer
/// comes first and the views are drawn again after it.
pub open spec fn change_actions_spec(
    sel: Seq<ObjectId>,
    scene: Option<Scene>,
    w: Widgets,
    change: Change,
    origin: WidgetId,
) -> Seq<ActionView> {
    match change {
        Change::Unchanged => seq![],
        Change::DirectChange(path) => if sel.len() == 0 {
            seq![]
        } else {
            direct_actions(path@, sel[0], w, origin)
        },
        Change::Objects(path, ids) => objects_actions(
            path@,
            ids@,
            first_selected(sel),
            scene,
            w,
            origin,
        ) + seq![ActionView::ViewsUpdate],
        Change::ChangeSelected(list) => selection_actions(list@, scene is Some, w, origin) + seq![
            ActionView::ViewsUpdate,
        ],
        Change::SelectedChange => selection_actions(sel, scene is Some, w, origin),
        Change::SceneRemove(_, obs) => act_if(tree_hears(w, origin), ActionView::TreeRemove(obs@))
            + selection_actions(without(sel, obs@), scene is Some, w, origin) + seq![
            ActionView::ViewsUpdate,
        ],
        Change::SceneAdd(_, obs) => match scene {
            Some(s) => act_if(
                tree_hears(w, origin),
                ActionView::TreeAdd(find_many(s.objects@, obs@).0),
            ) + seq![ActionView::ViewsUpdate],
            None => seq![],
        },
        Change::Undo => seq![ActionView::Undo, ActionView::ViewsUpdate],
        Change::Redo => seq![ActionView::Redo, ActionView::ViewsUpdate],
        _ => seq![ActionView::ViewsUpdate],
    }
}

/// The selection after `change` is handled: the new list for a change of
/// the selection, the old one without the removed objects for a removal.
pub open spec fn selection_after(sel: Seq<ObjectId>, change: Change) -> Seq<ObjectId> {
    match change {
        Change::ChangeSelected(list) => list@,
        Change::SceneRemove(_, obs) => without(sel, obs@),
        _ => sel,
    }
}

/// Whether action `a` reaches only a widget that is to hear of a change
/// that came from `origin`: one that tells the tree needs the tree to hear,
/// one that tells the property box of an object needs the box to hear.
pub open spec fn reaches_listener(a: ActionView, w: Widgets, origin: WidgetId) -> bool {
    match a {
        ActionView::TreeUpdateObject(_) => tree_hears(w, origin),
        ActionView::TreeSelect(_) => tree_hears(w, origin),
        ActionView::TreeRemove(_) => tree_hears(w, origin),
        ActionView::TreeAdd(_) => tree_hears(w, origin),
        ActionView::PropertyUpdateProperty(_, _) => property_hears(w, origin),
        ActionView::PropertyUpdateObject(_) => property_hears(w, origin),
        ActionView::PropertyShowNothing => property_hears(w, origin),
        ActionView::PropertyShowObject(_) => property_hears(w, origin),
        _ => true,
    }
}

/// Whether each action of `acts` reaches only widgets that are to hear.
pub open spec fn no_echo(acts: Seq<ActionView>, w: Widgets, origin: WidgetId) -> bool {
    forall|i: int| 0 <= i < acts.len() ==> #[trigger] reaches_listener(acts[i], w, origin)
}

proof fn lemma_no_echo_concat(a: Seq<ActionView>, b: Seq<ActionView>, w: Widgets, origin: WidgetId)
    requires
        no_echo(a, w, origin),
        no_echo(b, w, origin),
    ensures
        no_echo(a + b, w, origin),
{
    assert forall|i: int| 0 <= i < (a + b).len() implies #[trigger] reaches_listener(
        (a + b)[i],
        w,
        origin,
    ) by {
        if i < a.len() {
            assert((a + b)[i] == a[i]);
            assert(reaches_listener(a[i], w, origin));
        } else {
            assert((a + b)[i] == b[i - a.len()]);
            assert(reaches_listener(b[i - a.len()], w, origin));
        }
    }
}

proof fn lemma_no_echo_objects(
    path: Seq<char>,
    ids: Seq<ObjectId>,
    first: Option<ObjectId>,
    scene: Option<Scene>,
    w: Widgets,
    origin: WidgetId,
)
    ensures
        no_echo(objects_actions(path, ids, first, scene, w, origin), w, origin),
    decreases ids.len(),
{
    if ids.len() > 0 {
        lemma_no_echo_objects(path, ids.drop_last(), first, scene, w, origin);
        let id = ids.last();
        let own = if path == "name"@ {
            act_if(tree_hears(w, origin), ActionView::TreeUpdateObject(id))
        } else {
            act_if(is_mesh_path(path) && scene_has(scene, id), ActionView::MeshRenderUpdate(id))
        };
        let prop = act_if(
            first == Some(id) && property_hears(w, origin),
            ActionView::PropertyUpdateObject(id),
        );
        assert(no_echo(own, w, origin)) by {
            if own.len() > 0 {
                assert(reaches_listener(own[0], w, origin));
            }
        }
        assert(no_echo(prop, w, origin)) by {
            if prop.len() > 0 {
                assert(reaches_listener(prop[0], w, origin));
            }
        }
        lemma_no_echo_concat(own, prop, w, origin);
        lemma_no_echo_concat(
            objects_actions(path, ids.drop_last(), first, scene, w, origin),
            own + prop,
            w,
            origin,
        );
    }
}

proof fn lemma_no_echo_selection(sel: Seq<ObjectId>, has_scene: bool, w: Widgets, origin: WidgetId)
    ensures
        no_echo(selection_actions(sel, has_scene, w, origin), w, origin),
{
    let t = act_if(tree_hears(w, origin), ActionView::TreeSelect(sel));
    let prop = if sel.len() == 0 {
        act_if(w.property is Some && has_scene, ActionView::PropertyShowScene)
    } else if sel.len() != 1 {
        act_if(property_hears(w, origin), ActionView::PropertyShowNothing)
    } else {
        act_if(property_hears(w, origin), ActionView::PropertyShowObject(sel[0]))
    };
    let v = seq![ActionView::ViewsUpdate];
    assert(no_echo(t, w, origin)) by {
        if t.len() > 0 {
            assert(reaches_listener(t[0], w, origin));
        }
    }
    assert(no_echo(prop, w, origin)) by {
        if prop.len() > 0 {
            assert(reaches_listener(prop[0], w, origin));
        }
    }
    assert(no_echo(v, w, origin)) by {
        assert(reaches_listener(v[0], w, origin));
    }
    lemma_no_echo_concat(t, prop, w, origin);
    lemma_no_echo_concat(t + prop, v, w, origin);
}

/// A widget is not told back of a change that came from it: every action
/// in the answer to a change that tells the tree, or tells the property
/// box of an object, goes to a widget other than `origin`. (Showing the
/// scene when nothing is selected goes to the property box whatever the
/// origin.)
pub proof fn law_no_echo(
    sel: Seq<ObjectId>,
    scene: Option<Scene>,
    w: Widgets,
    change: Change,
    origin: WidgetId,
)
    ensures
        no_echo(change_actions_spec(sel, scene, w, change, origin), w, origin),
{
    let v = seq![ActionView::ViewsUpdate];
    assert(no_echo(v, w, origin)) by {
        assert(reaches_listener(v[0], w, origin));
    }
    let r = change_actions_spec(sel, scene, w, change, origin);
    match change {
        Change::DirectChange(path) => {
            if sel.len() > 0 {
                let o = sel[0];
                let a = act_if(path@ == "name"@ && tree_hears(w, origin), ActionView::TreeUpdateObject(o));
                let b = act_if(is_mesh_path(path@), ActionView::MeshRenderUpdate(o));
                let c = act_if(property_hears(w, origin), ActionView::PropertyUpdateProperty(o, path@));
                assert(no_echo(a, w, origin)) by {
                    if a.len() > 0 {
                        assert(reaches_listener(a[0], w, origin));
                    }
                }
                assert(no_echo(b, w, origin)) by {
                    if b.len() > 0 {
                        assert(reaches_listener(b[0], w, origin));
                    }
                }
                assert(no_echo(c, w, origin)) by {
                    if c.len() > 0 {
                        assert(reaches_listener(c[0], w, origin));
                    }
                }
                lemma_no_echo_concat(a, b, w, origin);
                lemma_no_echo_concat(a + b, c, w, origin);
                lemma_no_echo_concat(a + b + c, v, w, origin);
            }
        },
        Change::Objects(path, ids) => {
            lemma_no_echo_objects(path@, ids@, first_selected(sel), scene, w, origin);
            lemma_no_echo_concat(
                objects_actions(path@, ids@, first_selected(sel), scene, w, origin),
                v,
                w,
                origin,
            );
        },
        Change::ChangeSelected(list) => {
            lemma_no_echo_selection(list@, scene is Some, w, origin);
            lemma_no_echo_concat(selection_actions(list@, scene is Some, w, origin), v, w, origin);
        },
        Change::SelectedChange => {
            lemma_no_echo_selection(sel, scene is Some, w, origin);
        },
        Change::SceneRemove(_, obs) => {
            let t = act_if(tree_hears(w, origin), ActionView::TreeRemove(obs@));
            assert(no_echo(t, w, origin)) by {
                if t.len() > 0 {
                    assert(reaches_listener(t[0], w, origin));
                }
            }
            let s = selection_actions(without(sel, obs@), scene is Some, w, origin);
            lemma_no_echo_selection(without(sel, obs@), scene is Some, w, origin);
            lemma_no_echo_concat(t, s, w, origin);
            lemma_no_echo_concat(t + s, v, w, origin);
        },
        Change::SceneAdd(_, obs) => {
            if let Some(sc) = scene {
                let t = act_if(tree_hears(w, origin), ActionView::TreeAdd(find_many(sc.objects@, obs@).0));
                assert(no_echo(t, w, origin)) by {
                    if t.len() > 0 {
                        assert(reaches_listener(t[0], w, origin));
                    }
                }
                lemma_no_echo_concat(t, v, w, origin);
            }
        },
        Change::Undo => {
            assert(reaches_listener(r[0], w, origin));
            assert(reaches_listener(r[1], w, origin));
        },
        Change::Redo => {
            assert(reaches_listener(r[0], w, origin));
            assert(reaches_listener(r[1], w, origin));
        },
        Change::Unchanged => {},
        _ => {
            assert(reaches_listener(r[0], w, origin));
        },
    }
}

fn push_act(acts: &mut Vec<UiAction>, a: UiAction)
    ensures
        actions_view(final(acts)@) == actions_view(old(acts)@).push(a@),
{
    let ghost before = acts@;
    acts.push(a);
    assert(actions_view(acts@) =~= actions_view(before).push(a@));
}

fn is_text(s: &String, lit: &str) -> (r: bool)
    ensures
        r == (s@ == lit@),
{
    let t = String::from_str(lit);
    *s == t
}

/// Whether `s` begins with `p`.
fn has_prefix(s: &str, p: &str) -> (r: bool)
    ensures
        r == p@.is_prefix_of(s@),
{
    let n = s.unicode_len();
    let m = p.unicode_len();
    if m > n {
        return false;
    }
    let mut i: usize = 0;
    while i < m
        invariant
            n == s@.len(),
            m == p@.len(),
            m <= n,
            i <= m,
            forall|k: int| 0 <= k < i ==> p@[k] == s@[k],
        decreases m - i,
    {
        if p.get_char(i) != s.get_char(i) {
            assert(p@[i as int] != s@.subrange(0, m as int)[i as int]);
            return false;
        }
        i = i + 1;
    }
    assert(p@ =~= s@.subrange(0, m as int));
    true
}

fn mesh_path(path: &str) -> (r: bool)
    ensures
        r == is_mesh_path(path@),
{
    has_prefix(path, "comp_data/MeshRender")
}

fn tree_hears_exec(w: Widgets, origin: WidgetId) -> (r: bool)
    ensures
        r == tree_hears(w, origin),
{
    match w.tree {
        Some(t) => t != origin,
        None => false,
    }
}

fn property_hears_exec(w: Widgets, origin: WidgetId) -> (r: bool)
    ensures
        r == property_hears(w, origin),
{
    match w.property {
        Some(p) => p != origin,
        None => false,
    }
}

/// Adds to `acts` the answer to a change of the selection to `sel`.
fn push_selection_actions(
    acts: &mut Vec<UiAction>,
    sel: &Vec<ObjectId>,
    has_scene: bool,
    w: Widgets,
    origin: WidgetId,
)
    ensures
        actions_view(final(acts)@) == actions_view(old(acts)@) + selection_actions(
            sel@,
            has_scene,
            w,
            origin,
        ),
{
    let ghost start = actions_view(acts@);
    if tree_hears_exec(w, origin) {
        push_act(acts, UiAction::TreeSelect(copy_ids(sel)));
    }
    let ghost mid = actions_view(acts@);
    if sel.len() == 0 {
        if w.property.is_some() && has_scene {
            push_act(acts, UiAction::PropertyShowScene);
        }
    } else if sel.len() != 1 {
        if property_hears_exec(w, origin) {
            push_act(acts, UiAction::PropertyShowNothing);
        }
    } else {
        if property_hears_exec(w, origin) {
            push_act(acts, UiAction::PropertyShowObject(sel[0]));
        }
    }
    let ghost last = actions_view(acts@);
    push_act(acts, UiAction::ViewsUpdate);
    proof {
        let t = act_if(tree_hears(w, origin), ActionView::TreeSelect(sel@));
        assert(mid =~= start + t);
        let prop = if sel@.len() == 0 {
            act_if(w.property is Some && has_scene, ActionView::PropertyShowScene)
        } else if sel@.len() != 1 {
            act_if(property_hears(w, origin), ActionView::PropertyShowNothing)
        } else {
            act_if(property_hears(w, origin), ActionView::PropertyShowObject(sel@[0]))
        };
        assert(last =~= mid + prop);
        assert(actions_view(acts@) =~= start + (t + prop + seq![ActionView::ViewsUpdate]));
    }
}

/// Adds to `acts` the answer to a change of the property at `path` on the
/// objects of `ids`.
fn push_objects_actions(
    acts: &mut Vec<UiAction>,
    path: &String,
    ids: &Vec<ObjectId>,
    first: Option<ObjectId>,
    scene: &Option<Scene>,
    w: Widgets,
    origin: WidgetId,
)
    ensures
        actions_view(final(acts)@) == actions_view(old(acts)@) + objects_actions(
            path@,
            ids@,
            first,
            *scene,
            w,
            origin,
        ),
{
    proof {
        reveal_strlit("name");
    }
    let is_name = is_text(path, "name");
    let is_mesh = mesh_path(path.as_str());
    let ghost start = actions_view(acts@);
    let mut i: usize = 0;
    while i < ids.len()
        invariant
            i <= ids@.len(),
            is_name == (path@ == "name"@),
            is_mesh == is_mesh_path(path@),
            actions_view(acts@) == start + objects_actions(
                path@,
                ids@.take(i as int),
                first,
                *scene,
                w,
                origin,
            ),
        decreases ids.len() - i,
    {
        let id = ids[i];
        let ghost before = actions_view(acts@);
        if is_name {
            if tree_hears_exec(w, origin) {
                push_act(acts, UiAction::TreeUpdateObject(id));
            }
        } else if is_mesh {
            let found = match scene {
                Some(s) => s.find_object_by_id(id).is_some(),
                None => false,
            };
            if found {
                push_act(acts, UiAction::MeshRenderUpdate(id));
            }
        }
        let ghost mid = actions_view(acts@);
        if first == Some(id) && property_hears_exec(w, origin) {
            push_act(acts, UiAction::PropertyUpdateObject(id));
        }
        proof {
            let own = if path@ == "name"@ {
                act_if(tree_hears(w, origin), ActionView::TreeUpdateObject(id))
            } else {
                act_if(
                    is_mesh_path(path@) && scene_has(*scene, id),
                    ActionView::MeshRenderUpdate(id),
                )
            };
            assert(mid =~= before + own);
            let one = object_actions(path@, id, first, *scene, w, origin);
            assert(actions_view(acts@) =~= before + one);
            let t = ids@.take(i + 1);
            assert(t.drop_last() =~= ids@.take(i as int));
            assert(t.last() == id);
            assert(objects_actions(path@, t, first, *scene, w, origin) == objects_actions(
                path@,
                ids@.take(i as int),
                first,
                *scene,
                w,
                origin,
            ) + one);
            assert(actions_view(acts@) =~= start + objects_actions(
                path@,
                t,
                first,
                *scene,
                w,
                origin,
            ));
        }
        i = i + 1;
    }
    assert(ids@.take(ids@.len() as int) =~= ids@);
}

/// What the editor does in answer to `change`, coming from widget `origin`.
/// The caller performs the actions in order; for `Undo` and `Redo` it does
/// the operation and hands the change that gives back here, in the
/// action's place. A change of the selection sets the context's selection;
/// removed objects leave it.
pub fn change_actions(
    context: &mut Context,
    widgets: Widgets,
    change: &Change,
    origin: WidgetId,
) -> (acts: Vec<UiAction>)
    ensures
        actions_view(acts@) == change_actions_spec(
            old(context).selected@,
            old(context).scene,
            widgets,
            *change,
            origin,
        ),
        final(context).selected@ == selection_after(old(context).selected@, *change),
        final(context).scene == old(context).scene,
{
    let mut acts: Vec<UiAction> = Vec::new();
    assert(actions_view(acts@) =~= Seq::<ActionView>::empty());
    let has_scene = context.scene.is_some();
    match change {
        Change::Unchanged => {},
        Change::DirectChange(path) => {
            if context.selected.len() > 0 {
                let o = context.selected[0];
                proof {
                    reveal_strlit("name");
                }
                if is_text(path, "name") && tree_hears_exec(widgets, origin) {
                    push_act(&mut acts, UiAction::TreeUpdateObject(o));
                }
                if mesh_path(path.as_str()) {
                    push_act(&mut acts, UiAction::MeshRenderUpdate(o));
                }
                if property_hears_exec(widgets, origin) {
                    push_act(&mut acts, UiAction::PropertyUpdateProperty(o, path.clone()));
                }
                push_act(&mut acts, UiAction::ViewsUpdate);
                assert(actions_view(acts@) =~= direct_actions(path@, o, widgets, origin));
            }
        },
        Change::Objects(path, ids) => {
            let first = if context.selected.len() > 0 {
                Some(context.selected[0])
            } else {
                None
            };
            push_objects_actions(&mut acts, path, ids, first, &context.scene, widgets, origin);
            push_act(&mut acts, UiAction::ViewsUpdate);
        },
        Change::ChangeSelected(list) => {
            context.selected = copy_ids(list);
            push_selection_actions(&mut acts, &context.selected, has_scene, widgets, origin);
            push_act(&mut acts, UiAction::ViewsUpdate);
        },
        Change::SelectedChange => {
            push_selection_actions(&mut acts, &context.selected, has_scene, widgets, origin);
        },
        Change::SceneRemove(_, obs) => {
            context.remove_objects_by_id(copy_ids(obs));
            if tree_hears_exec(widgets, origin) {
                push_act(&mut acts, UiAction::TreeRemove(copy_ids(obs)));
            }
            push_selection_actions(&mut acts, &context.selected, has_scene, widgets, origin);
            push_act(&mut acts, UiAction::ViewsUpdate);
        },
        Change::SceneAdd(_, obs) => {
            match &context.scene {
                Some(s) => {
                    let mut sought = copy_ids(obs);
                    let found = s.find_objects_by_id(&mut sought);
                    if tree_hears_exec(widgets, origin) {
                        push_act(&mut acts, UiAction::TreeAdd(found));
                    }
                    push_act(&mut acts, UiAction::ViewsUpdate);
                },
                None => {},
            }
        },
        Change::Undo => {
            push_act(&mut acts, UiAction::Undo);
            push_act(&mut acts, UiAction::ViewsUpdate);
        },
        Change::Redo => {
            push_act(&mut acts, UiAction::Redo);
            push_act(&mut acts, UiAction::ViewsUpdate);
        },
        _ => {
            push_act(&mut acts, UiAction::ViewsUpdate);
        },
    }
    acts
}

} // verus!
