use vstd::prelude::*;

use crate::scene::{contains_id, ids_of, without, Object, ObjectId, Scene};

verus! {

/// What the editor is working on: the scene, and the objects selected in it
/// (by id, in the order they were selected).
pub struct Context {
    pub selected: Vec<ObjectId>,
    pub scene: Option<Scene>,
}

/// The selection after the objects of `ids` are added one after the other:
/// an id already selected is passed over, and one is added only where a
/// top-level object of the scene carries it.
pub open spec fn selection_added(
    sel: Seq<ObjectId>,
    scene: Option<Seq<ObjectId>>,
    ids: Seq<ObjectId>,
) -> Seq<ObjectId>
    decreases ids.len(),
{
    if ids.len() == 0 {
        sel
    } else {
        let s0 = selection_added(sel, scene, ids.drop_last());
        let x = ids.last();
        if s0.contains(x) {
            s0
        } else {
            match scene {
                Some(top) => if top.contains(x) {
                    s0.push(x)
                } else {
                    s0
                },
                None => s0,
            }
        }
    }
}

/// The ids of the top-level objects of the context's scene, if it has one.
pub open spec fn scene_top_ids(scene: Option<Scene>) -> Option<Seq<ObjectId>> {
    match scene {
        Some(s) => Some(ids_of(s.objects@)),
        None => None,
    }
}

pub fn copy_ids(v: &Vec<ObjectId>) -> (r: Vec<ObjectId>)
    ensures
        r@ == v@,
{
    let mut r: Vec<ObjectId> = Vec::new();
    let mut i: usize = 0;
    while i < v.len()
        invariant
            i <= v@.len(),
            r@ == v@.take(i as int),
        decreases v.len() - i,
    {
        r.push(v[i]);
        i = i + 1;
        assert(r@ =~= v@.take(i as int));
    }
    assert(v@.take(v@.len() as int) =~= v@);
    r
}

/// `s` without the ids that `drop` holds.
pub fn ids_without(s: &Vec<ObjectId>, drop: &Vec<ObjectId>) -> (r: Vec<ObjectId>)
    ensures
        r@ == without(s@, drop@),
{
    let mut r: Vec<ObjectId> = Vec::new();
    let mut i: usize = 0;
    while i < s.len()
        invariant
            i <= s@.len(),
            r@ == without(s@.take(i as int), drop@),
        decreases s.len() - i,
    {
        proof {
            let t = s@.take(i + 1);
            assert(t.drop_last() =~= s@.take(i as int));
        }
        if !contains_id(drop, s[i]) {
            r.push(s[i]);
        }
        i = i + 1;
    }
    assert(s@.take(s@.len() as int) =~= s@);
    r
}

/// Whether a top-level object of `objects` carries id `x`.
fn has_top_id(objects: &Vec<Object>, x: ObjectId) -> (r: bool)
    ensures
        r == ids_of(objects@).contains(x),
{
    let mut i: usize = 0;
    while i < objects.len()
        invariant
            i <= objects@.len(),
            forall|k: int| 0 <= k < i ==> objects@[k].id != x,
        decreases objects.len() - i,
    {
        if objects[i].id == x {
            assert(ids_of(objects@)[i as int] == x);
            return true;
        }
        i = i + 1;
    }
    proof {
        if ids_of(objects@).contains(x) {
            let k = choose|k: int| 0 <= k < ids_of(objects@).len() && ids_of(objects@)[k] == x;
            assert(objects@[k].id == x);
        }
    }
    false
}

impl Context {
    /// A context with no scene and nothing selected.
    pub fn new() -> (c: Context)
        ensures
            c.selected@.len() == 0,
            c.scene is None,
    {
        Context { selected: Vec::new(), scene: None }
    }

    /// The ids of the selected objects, in order.
    pub fn get_selected_ids(&self) -> (ids: Vec<ObjectId>)
        ensures
            ids@ == self.selected@,
    {
        copy_ids(&self.selected)
    }

    /// The ids of the selected objects, in order.
    pub fn get_vec_selected_ids(&self) -> (ids: Vec<ObjectId>)
        ensures
            ids@ == self.selected@,
    {
        copy_ids(&self.selected)
    }

    /// Unselects the objects of `ids`.
    pub fn remove_objects_by_id(&mut self, ids: Vec<ObjectId>)
        ensures
            final(self).selected@ == without(old(self).selected@, ids@),
            final(self).scene == old(self).scene,
    {
        self.selected = ids_without(&self.selected, &ids);
    }

    /// Selects the objects of `ids` that are top-level objects of the scene
    /// and not selected yet (see `selection_added`).
    pub fn add_objects_by_id(&mut self, ids: Vec<ObjectId>)
        ensures
            final(self).selected@ == selection_added(
                old(self).selected@,
                scene_top_ids(old(self).scene),
                ids@,
            ),
            final(self).scene == old(self).scene,
    {
        let mut i: usize = 0;
        while i < ids.len()
            invariant
                i <= ids@.len(),
                self.scene == old(self).scene,
                self.selected@ == selection_added(
                    old(self).selected@,
                    scene_top_ids(old(self).scene),
                    ids@.take(i as int),
                ),
            decreases ids.len() - i,
        {
            proof {
                let t = ids@.take(i + 1);
                assert(t.drop_last() =~= ids@.take(i as int));
            }
            let x = ids[i];
            if !contains_id(&self.selected, x) {
                let found = match &self.scene {
                    Some(s) => has_top_id(&s.objects, x),
                    None => false,
                };
                if found {
                    self.selected.push(x);
                }
            }
            i = i + 1;
        }
        assert(ids@.take(ids@.len() as int) =~= ids@);
    }
}

} // verus!
