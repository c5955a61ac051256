use vstd::prelude::*;
use vstd::string::*;

use crate::camera::Camera;
use crate::component::mesh_render::MeshRenderer;
use crate::number::parse_usize;
use crate::number::parse_usize_spec;
use crate::util::{make_vec_from_str, seq_join, seq_split, strings_view};

verus! {

/// Identifies an object or a scene: the 128 bits of its UUID.
pub type ObjectId = u128;

/// What the editor's logic reads of an object: its name, its id, its
/// children, the id of the object it is a child of, and the names of its
/// components and scripts.
pub struct Object {
    pub name: String,
    pub id: ObjectId,
    pub mesh_render: Option<MeshRenderer>,
    pub children: Vec<Object>,
    pub parent: Option<ObjectId>,
    pub comp_string: Vec<String>,
    pub comp_lua: Vec<String>,
}

pub struct Scene {
    pub name: String,
    pub id: ObjectId,
    pub objects: Vec<Object>,
    pub camera: Option<Camera>,
}

/// The objects of `list` and all their descendants, each object before its
/// children, in order.
pub open spec fn flatten(list: Seq<Object>) -> Seq<Object>
    decreases list,
{
    if list.len() == 0 {
        seq![]
    } else {
        let last = list.last();
        proof {
            assert(decreases_to!(list => list[list.len() - 1]));
        }
        flatten(list.drop_last()) + seq![last] + flatten(last.children@)
    }
}

/// The first of `s` with id `id`.
pub open spec fn first_with_id(s: Seq<Object>, id: ObjectId) -> Option<Object>
    decreases s.len(),
{
    if s.len() == 0 {
        None
    } else {
        match first_with_id(s.drop_last(), id) {
            Some(o) => Some(o),
            None => if s.last().id == id {
                Some(s.last())
            } else {
                None
            },
        }
    }
}

/// The first place of `x` in `ids`.
pub open spec fn index_of(ids: Seq<ObjectId>, x: ObjectId) -> Option<int>
    decreases ids.len(),
{
    if ids.len() == 0 {
        None
    } else {
        match index_of(ids.drop_last(), x) {
            Some(i) => Some(i),
            None => if ids.last() == x {
                Some(ids.len() - 1)
            } else {
                None
            },
        }
    }
}

/// What looking up the objects of `ids` in `list` gives: the ids of the
/// objects found, in the order they were met, and the ids left unfound. The
/// objects are visited in order; an object whose id is still sought is
/// taken (its id leaves the ids sought) and its children are not visited;
/// else its children are visited before the next object.
pub open spec fn find_many(list: Seq<Object>, ids: Seq<ObjectId>) -> (Seq<ObjectId>, Seq<ObjectId>)
    decreases list,
{
    if list.len() == 0 {
        (seq![], ids)
    } else {
        let before = find_many(list.drop_last(), ids);
        let last = list.last();
        proof {
            assert(decreases_to!(list => list[list.len() - 1]));
        }
        match index_of(before.1, last.id) {
            Some(i) => (before.0.push(last.id), before.1.remove(i)),
            None => {
                let inner = find_many(last.children@, before.1);
                (before.0 + inner.0, inner.1)
            },
        }
    }
}

/// The ids of a list of objects.
pub open spec fn ids_of(list: Seq<Object>) -> Seq<ObjectId> {
    list.map_values(|o: Object| o.id)
}

/// `s` without the elements that `drop` holds, in order.
pub open spec fn without(s: Seq<ObjectId>, drop: Seq<ObjectId>) -> Seq<ObjectId>
    decreases s.len(),
{
    if s.len() == 0 {
        seq![]
    } else if drop.contains(s.last()) {
        without(s.drop_last(), drop)
    } else {
        without(s.drop_last(), drop).push(s.last())
    }
}

/// `list` without the objects whose id `drop` holds, in order.
pub open spec fn objects_without(list: Seq<Object>, drop: Seq<ObjectId>) -> Seq<Object>
    decreases list.len(),
{
    if list.len() == 0 {
        seq![]
    } else if drop.contains(list.last().id) {
        objects_without(list.drop_last(), drop)
    } else {
        objects_without(list.drop_last(), drop).push(list.last())
    }
}

/// The objects of `list` whose id `keep` holds, in order.
pub open spec fn objects_with(list: Seq<Object>, keep: Seq<ObjectId>) -> Seq<Object>
    decreases list.len(),
{
    if list.len() == 0 {
        seq![]
    } else if keep.contains(list.last().id) {
        objects_with(list.drop_last(), keep).push(list.last())
    } else {
        objects_with(list.drop_last(), keep)
    }
}

/// The first of `list` named `name`.
pub open spec fn first_named(list: Seq<Object>, name: Seq<char>) -> Option<Object>
    decreases list.len(),
{
    if list.len() == 0 {
        None
    } else {
        match first_named(list.drop_last(), name) {
            Some(o) => Some(o),
            None => if list.last().name@ == name {
                Some(list.last())
            } else {
                None
            },
        }
    }
}

proof fn lemma_take_step<A>(s: Seq<A>, i: int)
    requires
        0 <= i < s.len(),
    ensures
        s.take(i + 1).drop_last() == s.take(i),
        s.take(i + 1).last() == s[i],
{
    assert(s.take(i + 1).drop_last() =~= s.take(i));
}

/// Looks for the object with id `id` in `list` and below, each object
/// before its children.
fn find_in(list: &Vec<Object>, id: ObjectId) -> (r: Option<&Object>)
    ensures
        match r {
            Some(o) => first_with_id(flatten(list@), id) == Some(*o),
            None => first_with_id(flatten(list@), id) is None,
        },
    decreases list@,
{
    let mut i: usize = 0;
    while i < list.len()
        invariant
            i <= list.len(),
            first_with_id(flatten(list@.take(i as int)), id) is None,
        decreases list.len() - i,
    {
        proof {
            lemma_take_step(list@, i as int);
        }
        let o = &list[i];
        proof {
            lemma_first_with_id_append(
                flatten(list@.take(i as int)),
                seq![*o],
                id,
            );
            assert(seq![*o].drop_last() =~= Seq::<Object>::empty());
            assert(first_with_id(Seq::<Object>::empty(), id) is None);
        }
        if o.id == id {
            proof {
                lemma_first_with_id_append(
                    flatten(list@.take(i as int)) + seq![*o],
                    flatten(o.children@),
                    id,
                );
                assert(flatten(list@.take(i + 1)) == flatten(list@.take(i as int)) + seq![*o]
                    + flatten(o.children@));
                lemma_first_with_id_prefix(list@, i as int + 1, id);
            }
            return Some(o);
        }
        proof {
            assert(decreases_to!(list@ => list@[i as int]));
        }
        let inner = find_in(&o.children, id);
        proof {
            lemma_first_with_id_append(
                flatten(list@.take(i as int)) + seq![*o],
                flatten(o.children@),
                id,
            );
            assert(flatten(list@.take(i + 1)) == flatten(list@.take(i as int)) + seq![*o]
                + flatten(o.children@));
        }
        match inner {
            Some(found) => {
                proof {
                    lemma_first_with_id_prefix(list@, i as int + 1, id);
                }
                return Some(found);
            },
            None => {},
        }
        i = i + 1;
    }
    assert(list@.take(list.len() as int) =~= list@);
    None
}

/// The first object with a given id in `a + b` is the first in `a`, if any,
/// else the first in `b`.
pub proof fn lemma_first_with_id_append(a: Seq<Object>, b: Seq<Object>, id: ObjectId)
    ensures
        first_with_id(a + b, id) == match first_with_id(a, id) {
            Some(o) => Some(o),
            None => first_with_id(b, id),
        },
    decreases b.len(),
{
    if b.len() == 0 {
        assert(a + b =~= a);
    } else {
        lemma_first_with_id_append(a, b.drop_last(), id);
        assert((a + b).drop_last() =~= a + b.drop_last());
    }
}

/// Flattening two lists one after the other is flattening each.
proof fn lemma_flatten_append(a: Seq<Object>, b: Seq<Object>)
    ensures
        flatten(a + b) == flatten(a) + flatten(b),
    decreases b.len(),
{
    if b.len() == 0 {
        assert(a + b =~= a);
        assert(flatten(a) + flatten(b) =~= flatten(a));
    } else {
        lemma_flatten_append(a, b.drop_last());
        assert((a + b).drop_last() =~= a + b.drop_last());
        assert((a + b).last() == b.last());
        let l = b.last();
        assert(flatten(a) + flatten(b.drop_last()) + seq![l] + flatten(l.children@) =~= flatten(a)
            + (flatten(b.drop_last()) + seq![l] + flatten(l.children@)));
    }
}

/// Objects added to a scene that held no object with a given id, at any
/// depth, are what looking that id up finds: the first of them, or below
/// them, with that id.
pub proof fn law_find_after_add(before: Seq<Object>, obs: Seq<Object>, id: ObjectId)
    requires
        first_with_id(flatten(before), id) is None,
    ensures
        first_with_id(flatten(before + obs), id) == first_with_id(flatten(obs), id),
{
    lemma_flatten_append(before, obs);
    lemma_first_with_id_append(flatten(before), flatten(obs), id);
}

/// What is found in the objects of a prefix of `list` (and below) is what is
/// found in all of `list`.
proof fn lemma_first_with_id_prefix(list: Seq<Object>, k: int, id: ObjectId)
    requires
        0 <= k <= list.len(),
        first_with_id(flatten(list.take(k)), id) is Some,
    ensures
        first_with_id(flatten(list), id) == first_with_id(flatten(list.take(k)), id),
    decreases list.len() - k,
{
    if k < list.len() {
        lemma_take_step(list, k);
        let t = list.take(k + 1);
        lemma_first_with_id_append(flatten(list.take(k)), seq![t.last()], id);
        lemma_first_with_id_append(
            flatten(list.take(k)) + seq![t.last()],
            flatten(t.last().children@),
            id,
        );
        lemma_first_with_id_prefix(list, k + 1, id);
    } else {
        assert(list.take(k) =~= list);
    }
}

fn index_in(ids: &Vec<ObjectId>, x: ObjectId) -> (r: Option<usize>)
    ensures
        match r {
            Some(i) => i < ids@.len() && index_of(ids@, x) == Some(i as int),
            None => index_of(ids@, x) is None,
        },
{
    let mut i: usize = 0;
    while i < ids.len()
        invariant
            i <= ids.len(),
            index_of(ids@.take(i as int), x) is None,
        decreases ids.len() - i,
    {
        proof {
            lemma_take_step(ids@, i as int);
        }
        if ids[i] == x {
            proof {
                lemma_index_of_prefix(ids@, i as int + 1, x);
            }
            return Some(i);
        }
        i = i + 1;
    }
    assert(ids@.take(ids.len() as int) =~= ids@);
    None
}

proof fn lemma_index_of_prefix(ids: Seq<ObjectId>, k: int, x: ObjectId)
    requires
        0 <= k <= ids.len(),
        index_of(ids.take(k), x) is Some,
    ensures
        index_of(ids, x) == index_of(ids.take(k), x),
    decreases ids.len() - k,
{
    if k < ids.len() {
        lemma_take_step(ids, k);
        lemma_index_of_prefix(ids, k + 1, x);
    } else {
        assert(ids.take(k) =~= ids);
    }
}

pub proof fn lemma_index_of(ids: Seq<ObjectId>, x: ObjectId)
    ensures
        match index_of(ids, x) {
            Some(i) => 0 <= i < ids.len() && ids[i] == x,
            None => !ids.contains(x),
        },
    decreases ids.len(),
{
    if ids.len() > 0 {
        lemma_index_of(ids.drop_last(), x);
        if index_of(ids.drop_last(), x) is None && ids.last() != x {
            assert forall|k: int| 0 <= k < ids.len() implies ids[k] != x by {
                if k < ids.len() - 1 {
                    assert(ids[k] == ids.drop_last()[k]);
                }
            }
        }
    }
}

/// Looks up the objects of `ids` in `list` and below (see `find_many`): the
/// ids found are added to `found`, and leave `ids`.
fn find_many_in(list: &Vec<Object>, ids: &mut Vec<ObjectId>, found: &mut Vec<ObjectId>)
    ensures
        final(found)@ == old(found)@ + find_many(list@, old(ids)@).0,
        final(ids)@ == find_many(list@, old(ids)@).1,
    decreases list@,
{
    let ghost ids0 = ids@;
    let ghost found0 = found@;
    let mut i: usize = 0;
    while i < list.len()
        invariant
            i <= list.len(),
            found@ == found0 + find_many(list@.take(i as int), ids0).0,
            ids@ == find_many(list@.take(i as int), ids0).1,
        decreases list.len() - i,
    {
        proof {
            lemma_take_step(list@, i as int);
        }
        let o = &list[i];
        match index_in(ids, o.id) {
            Some(k) => {
                ids.remove(k);
                found.push(o.id);
                proof {
                    assert(found@ =~= found0 + find_many(list@.take(i + 1), ids0).0);
                }
            },
            None => {
                proof {
                    assert(decreases_to!(list@ => list@[i as int]));
                }
                let ghost mid = found@;
                find_many_in(&o.children, ids, found);
                proof {
                    assert(found@ =~= found0 + find_many(list@.take(i + 1), ids0).0);
                }
            },
        }
        i = i + 1;
    }
    assert(list@.take(list.len() as int) =~= list@);
}

impl Scene {
    /// The first top-level object named `name`.
    pub fn object_find(&self, name: &str) -> (r: Option<&Object>)
        ensures
            match r {
                Some(o) => first_named(self.objects@, name@) == Some(*o),
                None => first_named(self.objects@, name@) is None,
            },
    {
        let key = String::from_str(name);
        let mut i: usize = 0;
        while i < self.objects.len()
            invariant
                i <= self.objects.len(),
                key@ == name@,
                first_named(self.objects@.take(i as int), name@) is None,
            decreases self.objects.len() - i,
        {
            proof {
                lemma_take_step(self.objects@, i as int);
            }
            if self.objects[i].name == key {
                proof {
                    lemma_first_named_prefix(self.objects@, i as int + 1, name@);
                }
                return Some(&self.objects[i]);
            }
            i = i + 1;
        }
        assert(self.objects@.take(self.objects.len() as int) =~= self.objects@);
        None
    }

    /// The object with id `id`, among the objects and their descendants,
    /// each object looked at before its children.
    pub fn find_object_by_id(&self, id: ObjectId) -> (r: Option<&Object>)
        ensures
            match r {
                Some(o) => first_with_id(flatten(self.objects@), id) == Some(*o),
                None => first_with_id(flatten(self.objects@), id) is None,
            },
    {
        find_in(&self.objects, id)
    }

    /// Looks up the objects of `ids` (see `find_many`): gives the ids of
    /// the objects found, which leave `ids`.
    pub fn find_objects_by_id(&self, ids: &mut Vec<ObjectId>) -> (found: Vec<ObjectId>)
        ensures
            found@ == find_many(self.objects@, old(ids)@).0,
            final(ids)@ == find_many(self.objects@, old(ids)@).1,
    {
        let mut found: Vec<ObjectId> = Vec::new();
        find_many_in(&self.objects, ids, &mut found);
        assert(found@ =~= find_many(self.objects@, old(ids)@).0);
        found
    }

    /// Adds the objects at the end of the scene's objects.
    pub fn add_objects(&mut self, obs: Vec<Object>)
        ensures
            final(self).objects@ == old(self).objects@ + obs@,
            final(self).name == old(self).name,
            final(self).id == old(self).id,
            final(self).camera == old(self).camera,
    {
        let mut obs = obs;
        self.objects.append(&mut obs);
    }

    /// Adds the objects one after the other at the end of the scene's objects.
    pub fn add_objects_by_vec(&mut self, obs: Vec<Object>)
        ensures
            final(self).objects@ == old(self).objects@ + obs@,
            final(self).name == old(self).name,
            final(self).id == old(self).id,
            final(self).camera == old(self).camera,
    {
        self.add_objects(obs)
    }

    /// Takes out of the scene's objects those whose id `ids` holds, keeping
    /// the order of the others; gives back those taken, in order.
    pub fn remove_objects(&mut self, ids: &Vec<ObjectId>) -> (removed: Vec<Object>)
        ensures
            final(self).objects@ == objects_without(old(self).objects@, ids@),
            removed@ == objects_with(old(self).objects@, ids@),
            final(self).name == old(self).name,
            final(self).id == old(self).id,
            final(self).camera == old(self).camera,
    {
        let mut rest: Vec<Object> = Vec::new();
        std::mem::swap(&mut rest, &mut self.objects);
        let ghost all = rest@;
        assert(all.len() == rest.len());
        let mut kept: Vec<Object> = Vec::new();
        let mut removed: Vec<Object> = Vec::new();
        let mut k: usize = 0;
        while rest.len() > 0
            invariant
                k + rest@.len() == all.len(),
                all.len() <= usize::MAX,
                rest@ == all.skip(k as int),
                kept@ == objects_without(all.take(k as int), ids@),
                removed@ == objects_with(all.take(k as int), ids@),
            decreases rest@.len(),
        {
            let o = rest.remove(0);
            proof {
                assert(o == all[k as int]);
                lemma_take_step(all, k as int);
                assert(rest@ =~= all.skip(k + 1));
            }
            if contains_id(ids, o.id) {
                removed.push(o);
            } else {
                kept.push(o);
            }
            k = k + 1;
        }
        assert(all.take(k as int) =~= all);
        self.objects = kept;
        removed
    }

    /// Takes out of the scene's objects those whose id `ids` holds.
    pub fn remove_objects_by_vec(&mut self, ids: &Vec<ObjectId>) -> (removed: Vec<Object>)
        ensures
            final(self).objects@ == objects_without(old(self).objects@, ids@),
            removed@ == objects_with(old(self).objects@, ids@),
            final(self).name == old(self).name,
            final(self).id == old(self).id,
            final(self).camera == old(self).camera,
    {
        self.remove_objects(ids)
    }
}
/// Whether `ids` holds `x`.
pub fn contains_id(ids: &Vec<ObjectId>, x: ObjectId) -> (r: bool)
    ensures
        r == ids@.contains(x),
{
    let r = index_in(ids, x);
    proof {
        lemma_index_of(ids@, x);
    }
    r.is_some()
}

proof fn lemma_first_named_prefix(list: Seq<Object>, k: int, name: Seq<char>)
    requires
        0 <= k <= list.len(),
        first_named(list.take(k), name) is Some,
    ensures
        first_named(list, name) == first_named(list.take(k), name),
    decreases list.len() - k,
{
    if k < list.len() {
        lemma_take_step(list, k);
        lemma_first_named_prefix(list, k + 1, name);
    } else {
        assert(list.take(k) =~= list);
    }
}

/// `a` is `b` but for its children and its parent.
pub open spec fn same_but_links(b: Object, a: Object) -> bool {
    &&& a.name == b.name
    &&& a.id == b.id
    &&& a.mesh_render == b.mesh_render
    &&& a.comp_string == b.comp_string
    &&& a.comp_lua == b.comp_lua
}

/// `after` is `before`, a list of children of the object `pid`, once each
/// of them and each of their descendants was given as parent the object
/// they are a child of.
pub open spec fn children_linked(pid: ObjectId, before: Seq<Object>, after: Seq<Object>) -> bool
    decreases before,
{
    if before.len() == 0 {
        after.len() == 0
    } else {
        let b = before.last();
        proof {
            assert(decreases_to!(before => before[before.len() - 1]));
        }
        &&& after.len() == before.len()
        &&& children_linked(pid, before.drop_last(), after.drop_last())
        &&& after.last().parent == Some(pid)
        &&& same_but_links(b, after.last())
        &&& children_linked(b.id, b.children@, after.last().children@)
    }
}

/// Gives each object of `children`, children of the object `pid`, and each
/// of their descendants, the object it is a child of as parent.
fn link_children(pid: ObjectId, children: &mut Vec<Object>)
    ensures
        children_linked(pid, old(children)@, final(children)@),
    decreases *old(children),
{
    let ghost before = children@;
    let mut i: usize = 0;
    while i < children.len()
        invariant
            i <= children@.len(),
            children@.len() == before.len(),
            before == old(children)@,
            children_linked(pid, before.take(i as int), children@.take(i as int)),
            children@.skip(i as int) == before.skip(i as int),
        decreases children.len() - i,
    {
        let mut c = Object {
            name: String::new(),
            id: 0,
            mesh_render: None,
            children: Vec::new(),
            parent: None,
            comp_string: Vec::new(),
            comp_lua: Vec::new(),
        };
        let ghost cur = children@;
        children.set_and_swap(i, &mut c);
        proof {
            assert(cur[i as int] == cur.skip(i as int)[0]);
            assert(c == before[i as int]);
            assert(decreases_to!(*old(children) => old(children)@));
            assert(decreases_to!(old(children)@ => old(children)@[i as int]));
            assert(decreases_to!(old(children)@[i as int] => old(children)@[i as int].children));
        }
        c.parent = Some(pid);
        let cid = c.id;
        link_children(cid, &mut c.children);
        let ghost cf = c;
        children.set_and_swap(i, &mut c);
        proof {
            assert(children@ == cur.update(i as int, cf));
            assert(children@.take(i as int) =~= cur.take(i as int));
            assert(same_but_links(before[i as int], cf));
            assert(cf.parent == Some(pid));
            assert(children_linked(before[i as int].id, before[i as int].children@, cf.children@));
            let t = before.take(i + 1);
            let u = children@.take(i + 1);
            assert(t.drop_last() =~= before.take(i as int));
            assert(u.drop_last() =~= children@.take(i as int));
            assert(t.last() == before[i as int]);
            assert(u.last() == children@[i as int]);
            assert forall|k: int| 0 <= k < children@.len() - (i + 1) implies #[trigger] children@.skip(i + 1)[k]
                == before.skip(i + 1)[k] by {
                assert(children@.skip(i + 1)[k] == cur[i + 1 + k]);
                assert(cur[i + 1 + k] == cur.skip(i as int)[k + 1]);
            }
            assert(children@.skip(i + 1) =~= before.skip(i + 1));
        }
        i = i + 1;
    }
    assert(before.take(before.len() as int) =~= before);
    assert(children@.take(children@.len() as int) =~= children@);
}

/// Gives each child of `o`, and each of their descendants, the object it is
/// a child of as parent (after reading a scene, where parents are not saved).
pub fn post_read_parent_set(o: &mut Object)
    ensures
        same_but_links(*old(o), *final(o)),
        final(o).parent == old(o).parent,
        children_linked(old(o).id, old(o).children@, final(o).children@),
{
    let id = o.id;
    link_children(id, &mut o.children);
}

/// `a` holds what `b` holds, down to its descendants: the same texts, ids,
/// mesh renderer and parent.
pub open spec fn object_same(a: Object, b: Object) -> bool
    decreases b,
{
    &&& a.name@ == b.name@
    &&& a.id == b.id
    &&& a.mesh_render == b.mesh_render
    &&& a.parent == b.parent
    &&& strings_view(a.comp_string@) == strings_view(b.comp_string@)
    &&& strings_view(a.comp_lua@) == strings_view(b.comp_lua@)
    &&& a.children@.len() == b.children@.len()
    &&& forall|i: int|
        #![trigger b.children@[i]]
        0 <= i < b.children@.len() ==> {
            proof {
                assert(decreases_to!(b => b.children));
            }
            object_same(a.children@[i], b.children@[i])
        }
}

/// A copy of `o` and of its descendants.
pub fn object_clone(o: &Object) -> (c: Object)
    ensures
        object_same(c, *o),
    decreases o,
{
    let mut children: Vec<Object> = Vec::new();
    let mut i: usize = 0;
    while i < o.children.len()
        invariant
            i <= o.children@.len(),
            children@.len() == i,
            forall|k: int|
                #![trigger o.children@[k]]
                0 <= k < i ==> object_same(children@[k], o.children@[k]),
        decreases o.children.len() - i,
    {
        proof {
            assert(decreases_to!(o => o.children));
        }
        let c = object_clone(&o.children[i]);
        children.push(c);
        i = i + 1;
    }
    Object {
        name: o.name.clone(),
        id: o.id,
        mesh_render: o.mesh_render,
        children,
        parent: o.parent,
        comp_string: crate::factory::clone_strings(&o.comp_string),
        comp_lua: crate::factory::clone_strings(&o.comp_lua),
    }
}

/// The place of the last object of `s` with id `id`.
pub open spec fn last_with_id(s: Seq<Object>, id: ObjectId) -> Option<int>
    decreases s.len(),
{
    if s.len() == 0 {
        None
    } else if s.last().id == id {
        Some(s.len() - 1)
    } else {
        last_with_id(s.drop_last(), id)
    }
}

/// The camera `after` is the camera `before` of a scene once read, whose
/// top-level objects are now `objects`: a camera that names the object it
/// belongs to takes as its object the last top-level object with that id,
/// where there is one; else it stays as it was.
pub open spec fn camera_linked(before: Option<Camera>, after: Option<Camera>, objects: Seq<Object>) -> bool {
    match before {
        None => after is None,
        Some(c) => match after {
            None => false,
            Some(d) => {
                &&& d.id == c.id
                &&& d.object_id == c.object_id
                &&& match c.object_id {
                    Some(oid) => match last_with_id(objects, oid) {
                        Some(k) => object_same(d.object, objects[k]),
                        None => d.object == c.object,
                    },
                    None => d.object == c.object,
                }
            },
        },
    }
}

/// The place of the last object of `objects` with id `id`.
fn last_index_with_id(objects: &Vec<Object>, id: ObjectId) -> (r: Option<usize>)
    ensures
        match r {
            Some(k) => k < objects@.len() && last_with_id(objects@, id) == Some(k as int),
            None => last_with_id(objects@, id) is None,
        },
{
    let mut k: usize = objects.len();
    assert(objects@.take(k as int) =~= objects@);
    while k > 0
        invariant
            k <= objects@.len(),
            last_with_id(objects@, id) == last_with_id(objects@.take(k as int), id),
        decreases k,
    {
        let ghost t = objects@.take(k as int);
        assert(t.drop_last() =~= objects@.take(k - 1));
        if objects[k - 1].id == id {
            return Some(k - 1);
        }
        k = k - 1;
    }
    assert(objects@.take(0) =~= Seq::<Object>::empty());
    None
}

impl Scene {
    /// After reading a scene, gives every object below its top-level objects
    /// the object it is a child of as parent (see `post_read_parent_set`),
    /// and the camera the object it belongs to (see `camera_linked`).
    pub fn post_read(&mut self)
        ensures
            final(self).name == old(self).name,
            final(self).id == old(self).id,
            camera_linked(old(self).camera, final(self).camera, final(self).objects@),
            final(self).objects@.len() == old(self).objects@.len(),
            forall|i: int|
                #![trigger final(self).objects@[i]]
                0 <= i < old(self).objects@.len() ==> {
                    let b = old(self).objects@[i];
                    let a = final(self).objects@[i];
                    &&& same_but_links(b, a)
                    &&& a.parent == b.parent
                    &&& children_linked(b.id, b.children@, a.children@)
                },
    {
        let ghost before = self.objects@;
        let mut i: usize = 0;
        while i < self.objects.len()
            invariant
                i <= self.objects@.len(),
                self.objects@.len() == before.len(),
                self.name == old(self).name,
                self.id == old(self).id,
                self.camera == old(self).camera,
                before == old(self).objects@,
                forall|k: int|
                    #![trigger self.objects@[k]]
                    0 <= k < i ==> {
                        let b = before[k];
                        let a = self.objects@[k];
                        &&& same_but_links(b, a)
                        &&& a.parent == b.parent
                        &&& children_linked(b.id, b.children@, a.children@)
                    },
                forall|k: int| #![trigger self.objects@[k]] i <= k < before.len() ==> self.objects@[k] == before[k],
            decreases self.objects.len() - i,
        {
            let mut o = Object {
                name: String::new(),
                id: 0,
                mesh_render: None,
                children: Vec::new(),
                parent: None,
                comp_string: Vec::new(),
                comp_lua: Vec::new(),
            };
            self.objects.set_and_swap(i, &mut o);
            post_read_parent_set(&mut o);
            self.objects.set_and_swap(i, &mut o);
            i = i + 1;
        }
        let target = match &self.camera {
            Some(c) => match c.object_id {
                Some(oid) => last_index_with_id(&self.objects, oid),
                None => None,
            },
            None => None,
        };
        match target {
            Some(k) => {
                let copy = object_clone(&self.objects[k]);
                match &mut self.camera {
                    Some(c) => {
                        c.object = copy;
                    },
                    None => {},
                }
            },
            None => {},
        }
    }
}

/// Makes `child` the last child of `parent`, with `parent` as its parent.
pub fn child_add(parent: &mut Object, child: Object)
    ensures
        final(parent).children@ == old(parent).children@.push(
            Object { parent: Some(old(parent).id), ..child },
        ),
        final(parent).parent == old(parent).parent,
        same_but_links(*old(parent), *final(parent)),
{
    let mut child = child;
    child.parent = Some(parent.id);
    parent.children.push(child);
}

impl Object {
    /// Adds the name of a component to create for the object.
    pub fn add_comp_string(&mut self, c: &str)
        ensures
            final(self).comp_string@.len() == old(self).comp_string@.len() + 1,
            final(self).comp_string@.drop_last() == old(self).comp_string@,
            final(self).comp_string@.last()@ == c@,
            final(self).name == old(self).name,
            final(self).id == old(self).id,
            final(self).parent == old(self).parent,
            final(self).mesh_render == old(self).mesh_render,
            final(self).children == old(self).children,
            final(self).comp_lua == old(self).comp_lua,
    {
        self.comp_string.push(String::from_str(c));
        assert(self.comp_string@.drop_last() =~= old(self).comp_string@);
    }
}

} // verus!
