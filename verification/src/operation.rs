use vstd::prelude::*;
use vstd::string::*;

use crate::property::{lemma_tree_updated_set_ok, law_tree_set_then_restore, set_in, tree_set_ok, tree_texts_are, tree_texts_same, tree_updated};
use crate::scene::{ids_of, objects_with, objects_without, Object, ObjectId, Scene};
use crate::util::{join_string, path_sep, seq_join, strings_view};

verus! {

/// What an action changed, for the views to update.
pub enum Change {
    Unchanged,
    Property,
    Tree,
    /// The property at this path changed on the objects of these ids.
    Objects(String, Vec<ObjectId>),
    DirectChange(String),
    RectVisibleSet(bool),
    RectSet(i64, i64, i64, i64),
    SelectedChange,
    /// These objects were added to the scene of this id.
    SceneAdd(ObjectId, Vec<ObjectId>),
    /// These objects were removed from the scene of this id.
    SceneRemove(ObjectId, Vec<ObjectId>),
    All,
    Undo,
    Redo,
    DraggerClicked,
    ChangeSelected(Vec<ObjectId>),
}

/// What an operation does.
pub enum OperationData {
    /// A text property goes from the first value to the second.
    OldNew(String, String),
    /// An optional property goes from the value given to none. A path
    /// reaches only an object's name, position, orientation, scale,
    /// component data and scripts; of these only the component data holds
    /// optional properties, and the objects here do not hold it. The mesh
    /// renderer is no member a path reaches, and a name or a script list
    /// takes no "none" or "some". So doing it changes nothing of the objects
    /// here; undoing it sets the value given back at the path.
    ToNone(String),
    /// An optional property goes from none to some (see `ToNone`): doing it
    /// changes none of the objects' texts, nor does undoing it.
    ToSome,
    /// A text property goes, object by object, from the first values to the second.
    Vector(Vec<String>, Vec<String>),
    /// These objects are added to the scene: the objects (while they are not in
    /// the scene) and their ids.
    SceneAddObjects(Vec<Object>, Vec<ObjectId>),
}

/// A change that can be done and undone: what it does, to the objects of
/// which ids, at which property path.
pub struct Operation {
    pub objects: Vec<ObjectId>,
    pub name: Vec<String>,
    pub change: OperationData,
}

/// The path of an operation's property.
pub open spec fn op_path(op: Operation) -> Seq<char> {
    seq_join(strings_view(op.name@), path_sep())
}

/// The same text `v`, `n` times.
pub open spec fn repeated(v: Seq<char>, n: nat) -> Seq<Seq<char>> {
    Seq::new(n, |i: int| v)
}

/// Doing `op` panics neither for lack of values nor on any object.
pub open spec fn can_apply(op: Operation, scene: Scene) -> bool {
    match op.change {
        OperationData::OldNew(_, _) => tree_set_ok(scene.objects@, op.objects@, op_path(op)),
        OperationData::Vector(_, new) => new@.len() >= op.objects@.len() && tree_set_ok(
            scene.objects@,
            op.objects@,
            op_path(op),
        ),
        _ => true,
    }
}

/// Undoing `op` panics neither for lack of values nor on any object.
pub open spec fn can_undo(op: Operation, scene: Scene) -> bool {
    match op.change {
        OperationData::OldNew(_, _) => tree_set_ok(scene.objects@, op.objects@, op_path(op)),
        OperationData::ToNone(_) => tree_set_ok(scene.objects@, op.objects@, op_path(op)),
        OperationData::Vector(old, _) => old@.len() >= op.objects@.len() && tree_set_ok(
            scene.objects@,
            op.objects@,
            op_path(op),
        ),
        _ => true,
    }
}

/// The change an operation on objects reports: its path and the ids.
pub open spec fn objects_change(c: Change, op: Operation) -> bool {
    c matches Change::Objects(s, ids) && s@ == op_path(op) && ids@ == op.objects@
}

/// The text values that setting `values` gives the objects of `op`.
pub open spec fn op_values(op: Operation, values: Seq<Seq<char>>) -> Seq<Seq<char>> {
    values.take(op.objects@.len() as int)
}

/// `(op2, s2, c)` is what doing `op` on scene `s1` gives.
pub open spec fn applied(op: Operation, s1: Scene, op2: Operation, s2: Scene, c: Change) -> bool {
    &&& s2.name == s1.name
    &&& s2.id == s1.id
    &&& s2.camera == s1.camera
    &&& op2.objects == op.objects
    &&& op2.name == op.name
    &&& match op.change {
        OperationData::OldNew(_, new) => {
            &&& op2.change == op.change
            &&& objects_change(c, op)
            &&& tree_updated(
                s1.objects@,
                s2.objects@,
                op.objects@,
                repeated(new@, op.objects@.len()),
                op_path(op),
            )
        },
        OperationData::Vector(_, new) => {
            &&& op2.change == op.change
            &&& objects_change(c, op)
            &&& tree_updated(
                s1.objects@,
                s2.objects@,
                op.objects@,
                op_values(op, strings_view(new@)),
                op_path(op),
            )
        },
        OperationData::SceneAddObjects(obs, ids) => {
            &&& s2.objects@ == s1.objects@ + obs@
            &&& op2.change matches OperationData::SceneAddObjects(obs2, ids2) && obs2@.len() == 0
                && ids2 == ids
            &&& c matches Change::SceneAdd(sid, cids) && sid == s1.id && cids@ == ids@
        },
        _ => {
            &&& op2.change == op.change
            &&& objects_change(c, op)
            &&& s2.objects == s1.objects
        },
    }
}

/// `(op2, s2, c)` is what undoing `op` on scene `s1` gives.
pub open spec fn undone(op: Operation, s1: Scene, op2: Operation, s2: Scene, c: Change) -> bool {
    &&& s2.name == s1.name
    &&& s2.id == s1.id
    &&& s2.camera == s1.camera
    &&& op2.objects == op.objects
    &&& op2.name == op.name
    &&& match op.change {
        OperationData::OldNew(old, _) => {
            &&& op2.change == op.change
            &&& objects_change(c, op)
            &&& tree_updated(
                s1.objects@,
                s2.objects@,
                op.objects@,
                repeated(old@, op.objects@.len()),
                op_path(op),
            )
        },
        OperationData::ToNone(old) => {
            &&& op2.change == op.change
            &&& objects_change(c, op)
            &&& tree_updated(
                s1.objects@,
                s2.objects@,
                op.objects@,
                repeated(old@, op.objects@.len()),
                op_path(op),
            )
        },
        OperationData::Vector(old, _) => {
            &&& op2.change == op.change
            &&& objects_change(c, op)
            &&& tree_updated(
                s1.objects@,
                s2.objects@,
                op.objects@,
                op_values(op, strings_view(old@)),
                op_path(op),
            )
        },
        OperationData::SceneAddObjects(_, ids) => {
            &&& s2.objects@ == objects_without(s1.objects@, ids@)
            &&& op2.change matches OperationData::SceneAddObjects(obs2, ids2) && obs2@
                == objects_with(s1.objects@, ids@) && ids2 == ids
            &&& c matches Change::SceneRemove(sid, cids) && sid == s1.id && cids@ == ids@
        },
        _ => {
            &&& op2.change == op.change
            &&& objects_change(c, op)
            &&& s2.objects == s1.objects
        },
    }
}

/// `n` copies of `v`.
fn repeat(v: &String, n: usize) -> (r: Vec<String>)
    ensures
        strings_view(r@) == repeated(v@, n as nat),
        r@.len() == n,
{
    let mut r: Vec<String> = Vec::new();
    let mut i: usize = 0;
    while i < n
        invariant
            i <= n,
            strings_view(r@) == repeated(v@, i as nat),
            r@.len() == i,
        decreases n - i,
    {
        let ghost before = r@;
        r.push(v.clone());
        i = i + 1;
        assert(strings_view(r@) =~= strings_view(before).push(v@));
        assert(strings_view(r@) =~= repeated(v@, i as nat));
    }
    r
}

/// The first `n` texts of `v`.
fn first_n(v: &Vec<String>, n: usize) -> (r: Vec<String>)
    requires
        n <= v@.len(),
    ensures
        strings_view(r@) == strings_view(v@).take(n as int),
        r@.len() == n,
{
    let mut r: Vec<String> = Vec::new();
    let mut i: usize = 0;
    while i < n
        invariant
            i <= n <= v@.len(),
            strings_view(r@) == strings_view(v@).take(i as int),
            r@.len() == i,
        decreases n - i,
    {
        let ghost before = r@;
        r.push(v[i].clone());
        assert(strings_view(r@) =~= strings_view(before).push(v@[i as int]@));
        i = i + 1;
        assert(strings_view(r@) =~= strings_view(v@).take(i as int));
    }
    r
}

fn copy_ids(v: &Vec<ObjectId>) -> (r: Vec<ObjectId>)
    ensures
        r@ == v@,
{
    let mut r: Vec<ObjectId> = Vec::new();
    let mut i: usize = 0;
    while i < v.len()
        invariant
            i <= v@.len(),
            r@ == v@.take(i as int),
        decreases v.len() - i,
    {
        r.push(v[i]);
        i = i + 1;
        assert(r@ =~= v@.take(i as int));
    }
    assert(v@.take(v@.len() as int) =~= v@);
    r
}

impl OperationData {
    /// Adding the objects `obs` to a scene.
    pub fn scene_add_objects(obs: Vec<Object>) -> (d: OperationData)
        ensures
            d matches OperationData::SceneAddObjects(o, ids) && o@ == obs@ && ids@ == ids_of(obs@),
    {
        let mut ids: Vec<ObjectId> = Vec::new();
        let mut i: usize = 0;
        while i < obs.len()
            invariant
                i <= obs@.len(),
                ids@ == ids_of(obs@.take(i as int)),
            decreases obs.len() - i,
        {
            ids.push(obs[i].id);
            i = i + 1;
            assert(ids@ =~= ids_of(obs@.take(i as int)));
        }
        assert(obs@.take(obs@.len() as int) =~= obs@);
        OperationData::SceneAddObjects(obs, ids)
    }
}

impl Operation {
    /// An operation doing `change` to the objects of `objects`, at the
    /// property path whose components are `name`.
    pub fn new(objects: Vec<ObjectId>, name: Vec<String>, change: OperationData) -> (op: Operation)
        ensures
            op.objects == objects,
            op.name == name,
            op.change == change,
    {
        Operation { objects, name, change }
    }

    /// Does the operation on `scene`.
    pub fn apply(&mut self, scene: &mut Scene) -> (c: Change)
        requires
            can_apply(*old(self), *old(scene)),
        ensures
            applied(*old(self), *old(scene), *final(self), *final(scene), c),
    {
        let s = join_string(&self.name);
        match &mut self.change {
            OperationData::OldNew(_, new) => {
                let values = repeat(new, self.objects.len());
                set_in(&mut scene.objects, &self.objects, &values, s.as_str());
                Change::Objects(s, copy_ids(&self.objects))
            },
            OperationData::Vector(_, new) => {
                let values = first_n(new, self.objects.len());
                set_in(&mut scene.objects, &self.objects, &values, s.as_str());
                Change::Objects(s, copy_ids(&self.objects))
            },
            OperationData::SceneAddObjects(obs, ids) => {
                let mut moved: Vec<Object> = Vec::new();
                std::mem::swap(&mut moved, obs);
                scene.add_objects_by_vec(moved);
                Change::SceneAdd(scene.id, copy_ids(ids))
            },
            _ => Change::Objects(s, copy_ids(&self.objects)),
        }
    }

    /// Undoes the operation on `scene`.
    pub fn undo(&mut self, scene: &mut Scene) -> (c: Change)
        requires
            can_undo(*old(self), *old(scene)),
        ensures
            undone(*old(self), *old(scene), *final(self), *final(scene), c),
    {
        let s = join_string(&self.name);
        match &mut self.change {
            OperationData::OldNew(old, _) => {
                let values = repeat(old, self.objects.len());
                set_in(&mut scene.objects, &self.objects, &values, s.as_str());
                Change::Objects(s, copy_ids(&self.objects))
            },
            OperationData::ToNone(old) => {
                let values = repeat(old, self.objects.len());
                set_in(&mut scene.objects, &self.objects, &values, s.as_str());
                Change::Objects(s, copy_ids(&self.objects))
            },
            OperationData::Vector(old, _) => {
                let values = first_n(old, self.objects.len());
                set_in(&mut scene.objects, &self.objects, &values, s.as_str());
                Change::Objects(s, copy_ids(&self.objects))
            },
            OperationData::SceneAddObjects(obs, ids) => {
                let removed = scene.remove_objects_by_vec(ids);
                *obs = removed;
                Change::SceneRemove(scene.id, copy_ids(ids))
            },
            _ => Change::Objects(s, copy_ids(&self.objects)),
        }
    }
}


/// The done operations, newest last, and the undone ones, most recently
/// undone last.
pub struct OperationManager {
    pub undo: Vec<Operation>,
    pub redo: Vec<Operation>,
}

/// `(m2, s2, c)` is what undoing the newest done operation of `m1` on scene
/// `s1` gives: nothing where there is none; else that operation is undone
/// and moves onto the undone ones.
pub open spec fn undo_step(
    m1: OperationManager,
    s1: Scene,
    m2: OperationManager,
    s2: Scene,
    c: Change,
) -> bool {
    if m1.undo@.len() == 0 {
        c is Unchanged && m2.undo@ == m1.undo@ && m2.redo@ == m1.redo@ && s2 == s1
    } else {
        &&& m2.undo@ == m1.undo@.drop_last()
        &&& m2.redo@.len() == m1.redo@.len() + 1
        &&& m2.redo@.drop_last() == m1.redo@
        &&& undone(m1.undo@.last(), s1, m2.redo@.last(), s2, c)
    }
}

/// `(m2, s2, c)` is what redoing the most recently undone operation of `m1`
/// on scene `s1` gives: nothing where there is none; else that operation is
/// done again and moves onto the done ones.
pub open spec fn redo_step(
    m1: OperationManager,
    s1: Scene,
    m2: OperationManager,
    s2: Scene,
    c: Change,
) -> bool {
    if m1.redo@.len() == 0 {
        c is Unchanged && m2.undo@ == m1.undo@ && m2.redo@ == m1.redo@ && s2 == s1
    } else {
        &&& m2.redo@ == m1.redo@.drop_last()
        &&& m2.undo@.len() == m1.undo@.len() + 1
        &&& m2.undo@.drop_last() == m1.undo@
        &&& applied(m1.redo@.last(), s1, m2.undo@.last(), s2, c)
    }
}

impl OperationManager {
    /// A manager with nothing done.
    pub fn new() -> (m: OperationManager)
        ensures
            m.undo@.len() == 0,
            m.redo@.len() == 0,
    {
        OperationManager { undo: Vec::new(), redo: Vec::new() }
    }

    /// Does `op` on `scene` and keeps it as the newest done operation; what
    /// was undone can no longer be redone.
    pub fn add(&mut self, op: Operation, scene: &mut Scene)
        requires
            can_apply(op, *old(scene)),
        ensures
            final(self).undo@.len() == old(self).undo@.len() + 1,
            final(self).undo@.drop_last() == old(self).undo@,
            final(self).redo@.len() == 0,
            exists|c: Change| applied(op, *old(scene), final(self).undo@.last(), *final(scene), c),
    {
        let mut op2 = op;
        let c = op2.apply(scene);
        let ghost done = op2;
        self.add_undo(op2);
        self.redo.clear();
        assert(self.undo@.drop_last() =~= old(self).undo@);
        assert(self.undo@.last() == done);
        assert(applied(op, *old(scene), self.undo@.last(), *scene, c));
    }

    fn add_undo(&mut self, op: Operation)
        ensures
            final(self).undo@ == old(self).undo@.push(op),
            final(self).redo@ == old(self).redo@,
    {
        self.undo.push(op);
    }

    fn add_redo(&mut self, op: Operation)
        ensures
            final(self).redo@ == old(self).redo@.push(op),
            final(self).undo@ == old(self).undo@,
    {
        self.redo.push(op);
    }

    fn pop_undo(&mut self) -> (op: Option<Operation>)
        ensures
            old(self).undo@.len() == 0 ==> op is None && final(self).undo@ == old(self).undo@,
            old(self).undo@.len() > 0 ==> op == Some(old(self).undo@.last())
                && final(self).undo@ == old(self).undo@.drop_last(),
            final(self).redo@ == old(self).redo@,
    {
        self.undo.pop()
    }

    fn pop_redo(&mut self) -> (op: Option<Operation>)
        ensures
            old(self).redo@.len() == 0 ==> op is None && final(self).redo@ == old(self).redo@,
            old(self).redo@.len() > 0 ==> op == Some(old(self).redo@.last())
                && final(self).redo@ == old(self).redo@.drop_last(),
            final(self).undo@ == old(self).undo@,
    {
        self.redo.pop()
    }

    /// Undoes the newest done operation on `scene`, if there is one.
    pub fn undo(&mut self, scene: &mut Scene) -> (c: Change)
        requires
            old(self).undo@.len() > 0 ==> can_undo(old(self).undo@.last(), *old(scene)),
        ensures
            undo_step(*old(self), *old(scene), *final(self), *final(scene), c),
    {
        let op = self.pop_undo();
        let mut op = match op {
            Some(o) => o,
            None => {
                return Change::Unchanged;
            },
        };
        let change = op.undo(scene);
        self.add_redo(op);
        assert(self.redo@.drop_last() =~= old(self).redo@);
        change
    }

    /// Does again the most recently undone operation on `scene`, if there is one.
    pub fn redo(&mut self, scene: &mut Scene) -> (c: Change)
        requires
            old(self).redo@.len() > 0 ==> can_apply(old(self).redo@.last(), *old(scene)),
        ensures
            redo_step(*old(self), *old(scene), *final(self), *final(scene), c),
    {
        let op = self.pop_redo();
        let mut op = match op {
            Some(o) => o,
            None => {
                return Change::Unchanged;
            },
        };
        let change = op.apply(scene);
        self.add_undo(op);
        assert(self.undo@.drop_last() =~= old(self).undo@);
        change
    }
}

proof fn lemma_without_append(a: Seq<Object>, b: Seq<Object>, d: Seq<ObjectId>)
    ensures
        objects_without(a + b, d) == objects_without(a, d) + objects_without(b, d),
        objects_with(a + b, d) == objects_with(a, d) + objects_with(b, d),
    decreases b.len(),
{
    if b.len() == 0 {
        assert(a + b =~= a);
        assert(objects_without(a, d) + objects_without(b, d) =~= objects_without(a, d));
        assert(objects_with(a, d) + objects_with(b, d) =~= objects_with(a, d));
    } else {
        lemma_without_append(a, b.drop_last(), d);
        assert((a + b).drop_last() =~= a + b.drop_last());
        assert((a + b).last() == b.last());
        assert((objects_without(a, d) + objects_without(b.drop_last(), d)).push(b.last())
            =~= objects_without(a, d) + objects_without(b.drop_last(), d).push(b.last()));
        assert((objects_with(a, d) + objects_with(b.drop_last(), d)).push(b.last())
            =~= objects_with(a, d) + objects_with(b.drop_last(), d).push(b.last()));
    }
}

proof fn lemma_without_none(a: Seq<Object>, d: Seq<ObjectId>)
    requires
        forall|k: int| 0 <= k < a.len() ==> !d.contains(#[trigger] a[k].id),
    ensures
        objects_without(a, d) == a,
        objects_with(a, d) == Seq::<Object>::empty(),
    decreases a.len(),
{
    if a.len() > 0 {
        assert forall|k: int| 0 <= k < a.drop_last().len() implies !d.contains(
            #[trigger] a.drop_last()[k].id,
        ) by {
            assert(a.drop_last()[k] == a[k]);
        }
        lemma_without_none(a.drop_last(), d);
        assert(!d.contains(a[a.len() - 1].id));
        assert(a.drop_last().push(a.last()) =~= a);
    }
}

proof fn lemma_without_all(a: Seq<Object>)
    ensures
        objects_without(a, ids_of(a)) == Seq::<Object>::empty(),
        objects_with(a, ids_of(a)) == a,
{
    assert forall|k: int| 0 <= k < a.len() implies ids_of(a).contains(#[trigger] a[k].id) by {
        assert(ids_of(a)[k] == a[k].id);
    }
    lemma_without_all_in(a, ids_of(a));
}

proof fn lemma_without_all_in(a: Seq<Object>, d: Seq<ObjectId>)
    requires
        forall|k: int| 0 <= k < a.len() ==> d.contains(#[trigger] a[k].id),
    ensures
        objects_without(a, d) == Seq::<Object>::empty(),
        objects_with(a, d) == a,
    decreases a.len(),
{
    if a.len() == 0 {
        assert(a =~= Seq::<Object>::empty());
    } else {
        assert forall|k: int| 0 <= k < a.drop_last().len() implies d.contains(
            #[trigger] a.drop_last()[k].id,
        ) by {
            assert(a.drop_last()[k] == a[k]);
        }
        lemma_without_all_in(a.drop_last(), d);
        assert(d.contains(a[a.len() - 1].id));
        assert(a.drop_last().push(a.last()) =~= a);
    }
}

/// Undoing the addition of objects to a scene, whose ids the scene did not
/// hold, gives the scene back as it was, and the operation its objects back.
pub proof fn law_undo_scene_add(
    op: Operation,
    s1: Scene,
    op2: Operation,
    s2: Scene,
    c1: Change,
    op3: Operation,
    s3: Scene,
    c2: Change,
)
    requires
        op.change matches OperationData::SceneAddObjects(obs, ids) && ids@ == ids_of(obs@),
        forall|k: int|
            0 <= k < s1.objects@.len() ==> !(match op.change {
                OperationData::SceneAddObjects(_, ids) => ids@,
                _ => Seq::<ObjectId>::empty(),
            }).contains(#[trigger] s1.objects@[k].id),
        applied(op, s1, op2, s2, c1),
        undone(op2, s2, op3, s3, c2),
    ensures
        s3.objects@ == s1.objects@,
        s3.name == s1.name,
        s3.id == s1.id,
        op3.objects == op.objects,
        op3.name == op.name,
        op3.change matches OperationData::SceneAddObjects(obs3, ids3) && (match op.change {
            OperationData::SceneAddObjects(obs, ids) => obs3@ == obs@ && ids3 == ids,
            _ => false,
        }),
{
    if let OperationData::SceneAddObjects(obs, ids) = op.change {
        lemma_without_append(s1.objects@, obs@, ids@);
        lemma_without_none(s1.objects@, ids@);
        lemma_without_all(obs@);
        assert(Seq::<Object>::empty() + obs@ =~= obs@);
        assert(s1.objects@ + Seq::<Object>::empty() =~= s1.objects@);
    }
}

/// Where something was done, undoing the newest done operation, then
/// redoing it, leaves the undone operations as they were and the done ones
/// as they were but for the newest, which is that operation again (see
/// `redone_as`).
pub proof fn law_undo_then_redo_stacks(
    m1: OperationManager,
    s1: Scene,
    m2: OperationManager,
    s2: Scene,
    c1: Change,
    m3: OperationManager,
    s3: Scene,
    c2: Change,
)
    requires
        m1.undo@.len() > 0,
        undo_step(m1, s1, m2, s2, c1),
        redo_step(m2, s2, m3, s3, c2),
    ensures
        m3.redo@ == m1.redo@,
        m3.undo@.len() == m1.undo@.len(),
        m3.undo@.drop_last() == m1.undo@.drop_last(),
        redone_as(m1.undo@.last(), m3.undo@.last()),
{
}

/// `op3` is `op` undone and done again: the same operation, but that an
/// addition of objects to a scene holds no objects once done (they are in
/// the scene), with the same ids.
pub open spec fn redone_as(op: Operation, op3: Operation) -> bool {
    match op.change {
        OperationData::SceneAddObjects(_, ids) => {
            &&& op3.objects == op.objects
            &&& op3.name == op.name
            &&& op3.change matches OperationData::SceneAddObjects(obs3, ids3) && obs3@.len() == 0
                && ids3 == ids
        },
        _ => op3 == op,
    }
}

/// The values that undoing a property operation gives its objects.
pub open spec fn undo_values(op: Operation) -> Seq<Seq<char>> {
    match op.change {
        OperationData::OldNew(old, _) => repeated(old@, op.objects@.len()),
        OperationData::Vector(old, _) => op_values(op, strings_view(old@)),
        _ => seq![],
    }
}

/// Undoing a change of a text property, done on a scene whose objects held
/// the values the operation records as old, gives the scene's objects back
/// as they were, and the operation back unchanged.
pub proof fn law_undo_property_change(
    op: Operation,
    s1: Scene,
    op2: Operation,
    s2: Scene,
    c1: Change,
    op3: Operation,
    s3: Scene,
    c2: Change,
)
    requires
        op.change is OldNew || op.change is Vector,
        tree_texts_are(s1.objects@, op.objects@, op_path(op), undo_values(op)),
        applied(op, s1, op2, s2, c1),
        undone(op2, s2, op3, s3, c2),
    ensures
        tree_texts_same(s1.objects@, s3.objects@),
        s3.name == s1.name,
        s3.id == s1.id,
        op3 == op,
{
    match op.change {
        OperationData::OldNew(old, new) => {
            law_tree_set_then_restore(
                s1.objects@,
                s2.objects@,
                s3.objects@,
                op.objects@,
                op_path(op),
                repeated(new@, op.objects@.len()),
                repeated(old@, op.objects@.len()),
            );
        },
        OperationData::Vector(old, new) => {
            law_tree_set_then_restore(
                s1.objects@,
                s2.objects@,
                s3.objects@,
                op.objects@,
                op_path(op),
                op_values(op, strings_view(new@)),
                op_values(op, strings_view(old@)),
            );
        },
        _ => {},
    }
}

/// The values that doing a property operation gives its objects.
pub open spec fn do_values(op: Operation) -> Seq<Seq<char>> {
    match op.change {
        OperationData::OldNew(_, new) => repeated(new@, op.objects@.len()),
        OperationData::Vector(_, new) => op_values(op, strings_view(new@)),
        _ => seq![],
    }
}

/// Redoing a change of a text property once undone, from a scene whose
/// objects held the values the operation records as new, gives the scene's
/// objects back as they were, and the operation back unchanged.
pub proof fn law_redo_property_change(
    op: Operation,
    s1: Scene,
    op2: Operation,
    s2: Scene,
    c1: Change,
    op3: Operation,
    s3: Scene,
    c2: Change,
)
    requires
        op.change is OldNew || op.change is Vector,
        tree_texts_are(s1.objects@, op.objects@, op_path(op), do_values(op)),
        undone(op, s1, op2, s2, c1),
        applied(op2, s2, op3, s3, c2),
    ensures
        tree_texts_same(s1.objects@, s3.objects@),
        s3.name == s1.name,
        s3.id == s1.id,
        op3 == op,
{
    match op.change {
        OperationData::OldNew(old, new) => {
            law_tree_set_then_restore(
                s1.objects@,
                s2.objects@,
                s3.objects@,
                op.objects@,
                op_path(op),
                repeated(old@, op.objects@.len()),
                repeated(new@, op.objects@.len()),
            );
        },
        OperationData::Vector(old, new) => {
            law_tree_set_then_restore(
                s1.objects@,
                s2.objects@,
                s3.objects@,
                op.objects@,
                op_path(op),
                op_values(op, strings_view(old@)),
                op_values(op, strings_view(new@)),
            );
        },
        _ => {},
    }
}


/// Undoing the addition of objects to a scene that held none of their ids,
/// then redoing it, gives the scene back as it was after the addition.
pub proof fn law_redo_scene_add(
    before: Seq<Object>,
    obs: Seq<Object>,
    op: Operation,
    s1: Scene,
    op2: Operation,
    s2: Scene,
    c1: Change,
    op3: Operation,
    s3: Scene,
    c2: Change,
)
    requires
        op.change matches OperationData::SceneAddObjects(_, ids) && ids@ == ids_of(obs),
        forall|k: int|
            0 <= k < before.len() ==> !ids_of(obs).contains(#[trigger] before[k].id),
        s1.objects@ == before + obs,
        undone(op, s1, op2, s2, c1),
        applied(op2, s2, op3, s3, c2),
    ensures
        s3.objects@ == s1.objects@,
        s3.name == s1.name,
        s3.id == s1.id,
{
    if let OperationData::SceneAddObjects(_, ids) = op.change {
        lemma_without_append(before, obs, ids@);
        lemma_without_none(before, ids@);
        lemma_without_all(obs);
        assert(before + Seq::<Object>::empty() =~= before);
        assert(Seq::<Object>::empty() + obs =~= obs);
    }
}


/// An operation that could be done and undone on a scene can, once done,
/// be undone and done again on the scene it leaves: doing it keeps the
/// objects it sets and their scripts' counts.
pub proof fn lemma_applied_keeps_ok(op: Operation, s1: Scene, op2: Operation, s2: Scene, c: Change)
    requires
        can_apply(op, s1),
        can_undo(op, s1),
        applied(op, s1, op2, s2, c),
    ensures
        can_apply(op2, s2),
        can_undo(op2, s2),
{
    match op.change {
        OperationData::OldNew(_, new) => {
            lemma_tree_updated_set_ok(
                s1.objects@,
                s2.objects@,
                op.objects@,
                repeated(new@, op.objects@.len()),
                op_path(op),
                op.objects@,
                op_path(op),
            );
        },
        OperationData::Vector(_, new) => {
            lemma_tree_updated_set_ok(
                s1.objects@,
                s2.objects@,
                op.objects@,
                op_values(op, strings_view(new@)),
                op_path(op),
                op.objects@,
                op_path(op),
            );
        },
        _ => {},
    }
}

/// An operation that could be done and undone on a scene can, once undone,
/// be done and undone again on the scene it leaves.
pub proof fn lemma_undone_keeps_ok(op: Operation, s1: Scene, op2: Operation, s2: Scene, c: Change)
    requires
        can_apply(op, s1),
        can_undo(op, s1),
        undone(op, s1, op2, s2, c),
    ensures
        can_apply(op2, s2),
        can_undo(op2, s2),
{
    match op.change {
        OperationData::OldNew(old, _) => {
            lemma_tree_updated_set_ok(
                s1.objects@,
                s2.objects@,
                op.objects@,
                repeated(old@, op.objects@.len()),
                op_path(op),
                op.objects@,
                op_path(op),
            );
        },
        OperationData::ToNone(old) => {
            lemma_tree_updated_set_ok(
                s1.objects@,
                s2.objects@,
                op.objects@,
                repeated(old@, op.objects@.len()),
                op_path(op),
                op.objects@,
                op_path(op),
            );
        },
        OperationData::Vector(old, _) => {
            lemma_tree_updated_set_ok(
                s1.objects@,
                s2.objects@,
                op.objects@,
                op_values(op, strings_view(old@)),
                op_path(op),
                op.objects@,
                op_path(op),
            );
        },
        _ => {},
    }
}

/// The newest done operation of `m` can be done and undone on `s`.
pub open spec fn top_ok(m: OperationManager, s: Scene) -> bool {
    m.undo@.len() > 0 ==> can_apply(m.undo@.last(), s) && can_undo(m.undo@.last(), s)
}

/// The most recently undone operation of `m` can be done and undone on `s`.
pub open spec fn next_ok(m: OperationManager, s: Scene) -> bool {
    m.redo@.len() > 0 ==> can_apply(m.redo@.last(), s) && can_undo(m.redo@.last(), s)
}

/// Undoing the newest done operation, where it could be done and undone,
/// leaves it, as the most recently undone one, able to be redone.
pub proof fn lemma_undo_step_keeps_ok(
    m1: OperationManager,
    s1: Scene,
    m2: OperationManager,
    s2: Scene,
    c: Change,
)
    requires
        top_ok(m1, s1),
        undo_step(m1, s1, m2, s2, c),
    ensures
        m1.undo@.len() > 0 ==> next_ok(m2, s2),
{
    if m1.undo@.len() > 0 {
        lemma_undone_keeps_ok(m1.undo@.last(), s1, m2.redo@.last(), s2, c);
    }
}

/// Redoing the most recently undone operation, where it could be done and
/// undone, leaves it, as the newest done one, able to be undone.
pub proof fn lemma_redo_step_keeps_ok(
    m1: OperationManager,
    s1: Scene,
    m2: OperationManager,
    s2: Scene,
    c: Change,
)
    requires
        next_ok(m1, s1),
        redo_step(m1, s1, m2, s2, c),
    ensures
        m1.redo@.len() > 0 ==> top_ok(m2, s2),
{
    if m1.redo@.len() > 0 {
        lemma_applied_keeps_ok(m1.redo@.last(), s1, m2.undo@.last(), s2, c);
    }
}

/// Adding an operation that could be done and undone on the scene leaves
/// it, as the newest done one, able to be undone.
pub proof fn lemma_add_keeps_ok(op: Operation, s1: Scene, m2: OperationManager, s2: Scene)
    requires
        can_apply(op, s1),
        can_undo(op, s1),
        m2.undo@.len() > 0,
        exists|c: Change| applied(op, s1, m2.undo@.last(), s2, c),
    ensures
        top_ok(m2, s2),
{
    let c = choose|c: Change| applied(op, s1, m2.undo@.last(), s2, c);
    lemma_applied_keeps_ok(op, s1, m2.undo@.last(), s2, c);
}

} // verus!
