use vstd::prelude::*;
use vstd::string::*;

use crate::named::{find_named, lemma_named_index, lemma_named_index_is, named_get, named_index, names_unique};
use crate::keyed::{find_key, key_index, keys_distinct};
use crate::scene::{Object, ObjectId};

verus! {

/// The objects each camera draws, by camera id.
pub type CameraPasses = Vec<(ObjectId, Vec<ObjectId>)>;

/// The objects to draw in a frame, grouped by the name of the shader that
/// draws them, then by the camera that looks at them.
pub struct RenderPasses {
    passes: Vec<(String, CameraPasses)>,
}

/// The place of the entry of camera `cam`, if any.
pub open spec fn cam_index(cams: Seq<(ObjectId, Vec<ObjectId>)>, cam: ObjectId) -> Option<int>
    decreases cams.len(),
{
    if cams.len() == 0 {
        None
    } else {
        match cam_index(cams.drop_last(), cam) {
            Some(i) => Some(i),
            None => if cams.last().0 == cam {
                Some(cams.len() - 1)
            } else {
                None
            },
        }
    }
}

/// The objects camera `cam` draws (none where it has no entry).
pub open spec fn cam_objects(cams: Seq<(ObjectId, Vec<ObjectId>)>, cam: ObjectId) -> Seq<ObjectId> {
    match cam_index(cams, cam) {
        Some(i) => cams[i].1@,
        None => seq![],
    }
}

/// No camera has two entries.
pub open spec fn cams_unique(cams: Seq<(ObjectId, Vec<ObjectId>)>) -> bool {
    forall|i: int, j: int| 0 <= i < j < cams.len() ==> #[trigger] cams[i].0 != #[trigger] cams[j].0
}

/// The objects drawn with the shader `shader` by camera `cam`.
pub open spec fn pass_objects(
    passes: Seq<(String, CameraPasses)>,
    shader: Seq<char>,
    cam: ObjectId,
) -> Seq<ObjectId> {
    match named_get(passes, shader) {
        Some(c) => cam_objects(c@, cam),
        None => seq![],
    }
}

/// The shaders that have a pass.
pub open spec fn pass_names(passes: Seq<(String, CameraPasses)>) -> Set<Seq<char>> {
    Set::new(|s: Seq<char>| named_index(passes, s) is Some)
}

impl View for RenderPasses {
    type V = Seq<(String, CameraPasses)>;

    closed spec fn view(&self) -> Seq<(String, CameraPasses)> {
        self.passes@
    }
}

impl RenderPasses {
    /// One pass per shader, one entry per camera in each.
    pub open spec fn wf(&self) -> bool {
        &&& names_unique(self@)
        &&& forall|i: int| 0 <= i < self@.len() ==> cams_unique((#[trigger] self@[i]).1@)
    }
}

proof fn lemma_cam_index(cams: Seq<(ObjectId, Vec<ObjectId>)>, cam: ObjectId)
    ensures
        match cam_index(cams, cam) {
            Some(i) => 0 <= i < cams.len() && cams[i].0 == cam,
            None => forall|k: int| 0 <= k < cams.len() ==> cams[k].0 != cam,
        },
    decreases cams.len(),
{
    if cams.len() > 0 {
        lemma_cam_index(cams.drop_last(), cam);
        assert forall|k: int| 0 <= k < cams.len() - 1 implies cams[k] == cams.drop_last()[k] by {}
    }
}

proof fn lemma_cam_index_is(cams: Seq<(ObjectId, Vec<ObjectId>)>, cam: ObjectId, k: int)
    requires
        cams_unique(cams),
        0 <= k < cams.len(),
        cams[k].0 == cam,
    ensures
        cam_index(cams, cam) == Some(k),
{
    lemma_cam_index(cams, cam);
    if let Some(i) = cam_index(cams, cam) {
        if i < k {
            assert(cams[i].0 != cams[k].0);
        } else if i > k {
            assert(cams[k].0 != cams[i].0);
        }
    }
}

fn find_cam(cams: &CameraPasses, cam: ObjectId) -> (r: Option<usize>)
    requires
        cams_unique(cams@),
    ensures
        match r {
            Some(i) => i < cams@.len() && cam_index(cams@, cam) == Some(i as int),
            None => cam_index(cams@, cam) is None,
        },
{
    let mut i: usize = 0;
    while i < cams.len()
        invariant
            i <= cams@.len(),
            cams_unique(cams@),
            forall|k: int| 0 <= k < i ==> cams@[k].0 != cam,
        decreases cams.len() - i,
    {
        if cams[i].0 == cam {
            proof {
                lemma_cam_index_is(cams@, cam, i as int);
            }
            return Some(i);
        }
        i = i + 1;
    }
    proof {
        lemma_cam_index(cams@, cam);
    }
    None
}

/// Adds `object` to the objects camera `cam` draws.
fn cam_add(cams: &mut CameraPasses, cam: ObjectId, object: ObjectId)
    requires
        cams_unique(old(cams)@),
    ensures
        cams_unique(final(cams)@),
        cam_objects(final(cams)@, cam) == cam_objects(old(cams)@, cam).push(object),
        forall|c: ObjectId| c != cam ==> #[trigger] cam_objects(final(cams)@, c) == cam_objects(
            old(cams)@,
            c,
        ),
{
    let ghost before = cams@;
    proof {
        lemma_cam_index(before, cam);
    }
    match find_cam(cams, cam) {
        Some(i) => {
            let mut entry: (ObjectId, Vec<ObjectId>) = (0, Vec::new());
            cams.set_and_swap(i, &mut entry);
            entry.1.push(object);
            cams.set_and_swap(i, &mut entry);
            proof {
                let after = cams@;
                assert forall|a: int, b: int| 0 <= a < b < after.len() implies #[trigger] after[a].0
                    != #[trigger] after[b].0 by {
                    assert(after[a].0 == before[a].0 && after[b].0 == before[b].0);
                }
                lemma_cam_index_is(after, cam, i as int);
                assert forall|c: ObjectId| c != cam implies #[trigger] cam_objects(after, c)
                    == cam_objects(before, c) by {
                    lemma_cam_index(before, c);
                    lemma_cam_index(after, c);
                    if let Some(k) = cam_index(before, c) {
                        assert(after[k] == before[k]);
                        lemma_cam_index_is(after, c, k);
                    } else if let Some(k) = cam_index(after, c) {
                        assert(after[k].0 == before[k].0);
                    }
                }
            }
        },
        None => {
            let mut objects: Vec<ObjectId> = Vec::new();
            objects.push(object);
            cams.push((cam, objects));
            proof {
                let after = cams@;
                assert forall|a: int, b: int| 0 <= a < b < after.len() implies #[trigger] after[a].0
                    != #[trigger] after[b].0 by {
                    if b == before.len() {
                        assert(after[a] == before[a]);
                    } else {
                        assert(after[a] == before[a] && after[b] == before[b]);
                    }
                }
                lemma_cam_index_is(after, cam, before.len() as int);
                assert(cam_objects(before, cam) =~= Seq::<ObjectId>::empty());
                assert(after[before.len() as int].1@ =~= seq![object]);
                assert forall|c: ObjectId| c != cam implies #[trigger] cam_objects(after, c)
                    == cam_objects(before, c) by {
                    lemma_cam_index(before, c);
                    lemma_cam_index(after, c);
                    if let Some(k) = cam_index(before, c) {
                        assert(after[k] == before[k]);
                        lemma_cam_index_is(after, c, k);
                    } else if let Some(k) = cam_index(after, c) {
                        assert(after[k] == before[k]);
                    }
                }
            }
        },
    }
}

impl RenderPasses {
    /// No pass yet.
    pub fn new() -> (r: RenderPasses)
        ensures
            r.wf(),
            r@.len() == 0,
    {
        RenderPasses { passes: Vec::new() }
    }

    /// Adds `object` to the objects drawn with the shader `shader` by the
    /// camera `cam`, making the pass of that shader, and the camera's entry
    /// in it, where there is none yet.
    pub fn add_object(&mut self, shader: &str, cam: ObjectId, object: ObjectId)
        requires
            old(self).wf(),
        ensures
            final(self).wf(),
            pass_objects(final(self)@, shader@, cam) == pass_objects(old(self)@, shader@, cam).push(
                object,
            ),
            forall|s: Seq<char>, c: ObjectId|
                !(s == shader@ && c == cam) ==> #[trigger] pass_objects(final(self)@, s, c)
                    == pass_objects(old(self)@, s, c),
            pass_names(final(self)@) == pass_names(old(self)@).insert(shader@),
    {
        let ghost before = self.passes@;
        proof {
            lemma_named_index(before, shader@);
        }
        let i = match find_named(&self.passes, shader) {
            Some(i) => i,
            None => {
                self.passes.push((String::from_str(shader), Vec::new()));
                proof {
                    let after = self.passes@;
                    assert forall|a: int, b: int| 0 <= a < b < after.len() implies #[trigger] after[a].0@
                        != #[trigger] after[b].0@ by {
                        if b == before.len() {
                            assert(after[a] == before[a]);
                        } else {
                            assert(after[a] == before[a] && after[b] == before[b]);
                        }
                    }
                    assert(cams_unique(after[before.len() as int].1@));
                    assert forall|k: int| 0 <= k < after.len() implies cams_unique(
                        (#[trigger] after[k]).1@,
                    ) by {
                        if k < before.len() {
                            assert(after[k] == before[k]);
                        }
                    }
                    lemma_named_index_is(after, shader@, before.len() as int);
                    assert forall|s: Seq<char>, c: ObjectId| s != shader@ implies #[trigger] pass_objects(
                        after,
                        s,
                        c,
                    ) == pass_objects(before, s, c) by {
                        lemma_named_index(before, s);
                        lemma_named_index(after, s);
                        if let Some(k) = named_index(before, s) {
                            assert(after[k] == before[k]);
                            lemma_named_index_is(after, s, k);
                        } else if let Some(k) = named_index(after, s) {
                            assert(after[k] == before[k]);
                        }
                    }
                    assert(cam_objects(after[before.len() as int].1@, cam) =~= Seq::<ObjectId>::empty()) by {
                        lemma_cam_index(after[before.len() as int].1@, cam);
                    }
                }
                self.passes.len() - 1
            },
        };
        let ghost mid = self.passes@;
        proof {
            lemma_named_index_is(mid, shader@, i as int);
            assert(self.wf());
        }
        let mut entry: (String, CameraPasses) = (String::new(), Vec::new());
        self.passes.set_and_swap(i, &mut entry);
        proof {
            assert(cams_unique(entry.1@));
        }
        cam_add(&mut entry.1, cam, object);
        self.passes.set_and_swap(i, &mut entry);
        proof {
            let after = self.passes@;
            assert forall|a: int, b: int| 0 <= a < b < after.len() implies #[trigger] after[a].0@
                != #[trigger] after[b].0@ by {
                assert(after[a].0 == mid[a].0 && after[b].0 == mid[b].0);
            }
            assert forall|k: int| 0 <= k < after.len() implies cams_unique((#[trigger] after[k]).1@) by {
                if k != i {
                    assert(after[k] == mid[k]);
                }
            }
            lemma_named_index_is(after, shader@, i as int);
            assert forall|s: Seq<char>, c: ObjectId| !(s == shader@ && c == cam) implies #[trigger] pass_objects(
                after,
                s,
                c,
            ) == pass_objects(mid, s, c) by {
                lemma_named_index(mid, s);
                lemma_named_index(after, s);
                if let Some(k) = named_index(mid, s) {
                    if k != i {
                        assert(after[k] == mid[k]);
                    }
                    lemma_named_index_is(after, s, k);
                } else if let Some(k) = named_index(after, s) {
                    assert(after[k].0 == mid[k].0);
                }
            }
            assert forall|s: Seq<char>| #[trigger] pass_names(after).contains(s) == pass_names(
                before,
            ).insert(shader@).contains(s) by {
                lemma_named_index(before, s);
                lemma_named_index(mid, s);
                lemma_named_index(after, s);
                if let Some(k) = named_index(mid, s) {
                    lemma_named_index_is(after, s, k);
                } else if let Some(k) = named_index(after, s) {
                    assert(after[k].0 == mid[k].0);
                }
                if let Some(k) = named_index(before, s) {
                    assert(mid[k] == before[k]);
                    lemma_named_index_is(mid, s, k);
                } else if let Some(k) = named_index(mid, s) {
                    if k < before.len() {
                        assert(mid[k] == before[k]);
                    }
                }
            }
            assert(pass_names(after) =~= pass_names(before).insert(shader@));
        }
    }

    /// Forgets what each camera draws, keeping the passes of the shaders.
    pub fn clear_objects(&mut self)
        requires
            old(self).wf(),
        ensures
            final(self).wf(),
            forall|s: Seq<char>, c: ObjectId| #[trigger] pass_objects(final(self)@, s, c) == Seq::<
                ObjectId,
            >::empty(),
            pass_names(final(self)@) == pass_names(old(self)@),
    {
        let ghost before = self.passes@;
        let mut i: usize = 0;
        while i < self.passes.len()
            invariant
                i <= self.passes@.len(),
                self.passes@.len() == before.len(),
                forall|k: int| 0 <= k < before.len() ==> #[trigger] self.passes@[k].0 == before[k].0,
                forall|k: int| 0 <= k < i ==> (#[trigger] self.passes@[k]).1@.len() == 0,
                forall|k: int| i <= k < before.len() ==> #[trigger] self.passes@[k] == before[k],
                names_unique(before),
                forall|k: int| 0 <= k < before.len() ==> cams_unique((#[trigger] before[k]).1@),
            decreases self.passes.len() - i,
        {
            let mut entry: (String, CameraPasses) = (String::new(), Vec::new());
            self.passes.set_and_swap(i, &mut entry);
            entry.1.clear();
            self.passes.set_and_swap(i, &mut entry);
            i = i + 1;
        }
        proof {
            let after = self.passes@;
            assert forall|a: int, b: int| 0 <= a < b < after.len() implies #[trigger] after[a].0@
                != #[trigger] after[b].0@ by {
                assert(after[a].0 == before[a].0 && after[b].0 == before[b].0);
            }
            assert forall|k: int| 0 <= k < after.len() implies cams_unique((#[trigger] after[k]).1@) by {
                assert(after[k].1@.len() == 0);
            }
            assert forall|s: Seq<char>, c: ObjectId| #[trigger] pass_objects(after, s, c) == Seq::<
                ObjectId,
            >::empty() by {
                lemma_named_index(after, s);
                if let Some(k) = named_index(after, s) {
                    lemma_cam_index(after[k].1@, c);
                }
            }
            assert forall|s: Seq<char>| #[trigger] pass_names(after).contains(s) == pass_names(
                before,
            ).contains(s) by {
                lemma_named_index(before, s);
                lemma_named_index(after, s);
                if let Some(k) = named_index(before, s) {
                    lemma_named_index_is(after, s, k);
                } else if let Some(k) = named_index(after, s) {
                    assert(after[k].0 == before[k].0);
                }
            }
            assert(pass_names(after) =~= pass_names(before));
        }
    }

    /// The objects drawn with the shader `shader` by camera `cam`, in the
    /// order they were added.
    pub fn objects(&self, shader: &str, cam: ObjectId) -> (r: Vec<ObjectId>)
        requires
            self.wf(),
        ensures
            r@ == pass_objects(self@, shader@, cam),
    {
        match find_named(&self.passes, shader) {
            Some(i) => {
                let cams = &self.passes[i].1;
                proof {
                    assert(cams_unique(self@[i as int].1@));
                }
                match find_cam(cams, cam) {
                    Some(j) => cams[j].1.clone(),
                    None => Vec::new(),
                }
            },
            None => Vec::new(),
        }
    }
}


/// The ids of the objects of `list` and of all their descendants, each
/// object after its children, in order.
pub open spec fn children_first(list: Seq<Object>) -> Seq<ObjectId>
    decreases list,
{
    if list.len() == 0 {
        seq![]
    } else {
        let last = list.last();
        proof {
            assert(decreases_to!(list => list[list.len() - 1]));
        }
        children_first(list.drop_last()) + children_first(last.children@) + seq![last.id]
    }
}

/// The name of the shader that draws the object `id`, if any.
pub open spec fn shader_of(shaders: Seq<(ObjectId, String)>, id: ObjectId) -> Option<Seq<char>> {
    match key_index(shaders, id) {
        Some(k) => Some(shaders[k].1@),
        None => None,
    }
}

/// Those of `ids` that the shader `s` draws, in order.
pub open spec fn drawn_with(ids: Seq<ObjectId>, shaders: Seq<(ObjectId, String)>, s: Seq<char>) -> Seq<
    ObjectId,
>
    decreases ids.len(),
{
    if ids.len() == 0 {
        seq![]
    } else {
        let init = drawn_with(ids.drop_last(), shaders, s);
        if shader_of(shaders, ids.last()) == Some(s) {
            init.push(ids.last())
        } else {
            init
        }
    }
}

/// The shaders that draw some of `ids`.
pub open spec fn shaders_used(ids: Seq<ObjectId>, shaders: Seq<(ObjectId, String)>) -> Set<Seq<char>> {
    Set::new(|s: Seq<char>| drawn_with(ids, shaders, s).len() > 0)
}

proof fn lemma_drawn_with_append(
    a: Seq<ObjectId>,
    b: Seq<ObjectId>,
    shaders: Seq<(ObjectId, String)>,
    s: Seq<char>,
)
    ensures
        drawn_with(a + b, shaders, s) == drawn_with(a, shaders, s) + drawn_with(b, shaders, s),
    decreases b.len(),
{
    if b.len() == 0 {
        assert(a + b =~= a);
        assert(drawn_with(a, shaders, s) + drawn_with(b, shaders, s) =~= drawn_with(a, shaders, s));
    } else {
        lemma_drawn_with_append(a, b.drop_last(), shaders, s);
        assert((a + b).drop_last() =~= a + b.drop_last());
        assert((a + b).last() == b.last());
        let x = drawn_with(a, shaders, s);
        let y = drawn_with(b.drop_last(), shaders, s);
        assert((x + y).push(b.last()) =~= x + y.push(b.last()));
    }
}

proof fn lemma_shaders_used_append(
    a: Seq<ObjectId>,
    b: Seq<ObjectId>,
    shaders: Seq<(ObjectId, String)>,
)
    ensures
        shaders_used(a + b, shaders) == shaders_used(a, shaders).union(shaders_used(b, shaders)),
{
    assert forall|s: Seq<char>| #[trigger] shaders_used(a + b, shaders).contains(s) == shaders_used(
        a,
        shaders,
    ).union(shaders_used(b, shaders)).contains(s) by {
        lemma_drawn_with_append(a, b, shaders, s);
    }
    assert(shaders_used(a + b, shaders) =~= shaders_used(a, shaders).union(shaders_used(b, shaders)));
}

proof fn lemma_children_first_one(o: Object)
    ensures
        children_first(seq![o]) == children_first(o.children@) + seq![o.id],
{
    let l = seq![o];
    assert(l.drop_last() =~= Seq::<Object>::empty());
    assert(l.last() == o);
    assert(children_first(Seq::<Object>::empty()) == Seq::<ObjectId>::empty());
    assert(Seq::<ObjectId>::empty() + children_first(o.children@) =~= children_first(o.children@));
}

proof fn lemma_children_first_take(list: Seq<Object>, i: int)
    requires
        0 <= i < list.len(),
    ensures
        children_first(list.take(i + 1)) == children_first(list.take(i)) + children_first(
            seq![list[i]],
        ),
{
    let t = list.take(i + 1);
    assert(t.drop_last() =~= list.take(i));
    assert(t.last() == list[i]);
    lemma_children_first_one(list[i]);
    let x = children_first(list.take(i));
    let y = children_first(list[i].children@);
    assert(x + y + seq![list[i].id] =~= x + (y + seq![list[i].id]));
}

impl RenderPasses {
    /// Adds the objects of `list` and the objects under them, each after
    /// its children, in order, to the passes of the shaders that draw them,
    /// for the camera `cam` (see `prepare_passes_object`).
    pub fn prepare_passes_list(
        &mut self,
        list: &Vec<Object>,
        shaders: &Vec<(ObjectId, String)>,
        cam: ObjectId,
    )
        requires
            old(self).wf(),
            keys_distinct(shaders@),
        ensures
            final(self).wf(),
            forall|s: Seq<char>, c: ObjectId| #[trigger]
                pass_objects(final(self)@, s, c) == if c == cam {
                    pass_objects(old(self)@, s, c) + drawn_with(children_first(list@), shaders@, s)
                } else {
                    pass_objects(old(self)@, s, c)
                },
            pass_names(final(self)@) == pass_names(old(self)@).union(
                shaders_used(children_first(list@), shaders@),
            ),
        decreases list,
    {
        let ghost before = self@;
        let mut i: usize = 0;
        proof {
            assert(list@.take(0) =~= Seq::<Object>::empty());
            assert forall|s: Seq<char>, c: ObjectId| #[trigger]
                pass_objects(self@, s, c) == if c == cam {
                    pass_objects(before, s, c) + drawn_with(
                        children_first(list@.take(0)),
                        shaders@,
                        s,
                    )
                } else {
                    pass_objects(before, s, c)
                } by {
                assert(pass_objects(before, s, c) + Seq::<ObjectId>::empty() =~= pass_objects(
                    before,
                    s,
                    c,
                ));
            }
            assert(pass_names(self@) =~= pass_names(before).union(
                shaders_used(children_first(list@.take(0)), shaders@),
            ));
        }
        while i < list.len()
            invariant
                i <= list@.len(),
                self.wf(),
                keys_distinct(shaders@),
                forall|s: Seq<char>, c: ObjectId| #[trigger]
                    pass_objects(self@, s, c) == if c == cam {
                        pass_objects(before, s, c) + drawn_with(
                            children_first(list@.take(i as int)),
                            shaders@,
                            s,
                        )
                    } else {
                        pass_objects(before, s, c)
                    },
                pass_names(self@) == pass_names(before).union(
                    shaders_used(children_first(list@.take(i as int)), shaders@),
                ),
            decreases list.len() - i,
        {
            let ghost mid = self@;
            let child = &list[i];
            proof {
                assert(decreases_to!(*list => list@));
                assert(decreases_to!(list@ => list@[i as int]));
            }
            self.prepare_passes_object(child, shaders, cam);
            proof {
                let done = children_first(list@.take(i as int));
                let next = children_first(seq![*child]);
                lemma_children_first_take(list@, i as int);
                assert forall|s: Seq<char>, c: ObjectId| #[trigger]
                    pass_objects(self@, s, c) == if c == cam {
                        pass_objects(before, s, c) + drawn_with(
                            children_first(list@.take(i + 1)),
                            shaders@,
                            s,
                        )
                    } else {
                        pass_objects(before, s, c)
                    } by {
                    assert(pass_objects(mid, s, c) == if c == cam {
                        pass_objects(before, s, c) + drawn_with(done, shaders@, s)
                    } else {
                        pass_objects(before, s, c)
                    });
                    if c == cam {
                        lemma_drawn_with_append(done, next, shaders@, s);
                        assert(pass_objects(before, s, c) + drawn_with(done, shaders@, s)
                            + drawn_with(next, shaders@, s) =~= pass_objects(before, s, c) + (
                        drawn_with(done, shaders@, s) + drawn_with(next, shaders@, s)));
                    }
                }
                lemma_shaders_used_append(done, next, shaders@);
                assert(pass_names(self@) =~= pass_names(before).union(
                    shaders_used(children_first(list@.take(i + 1)), shaders@),
                ));
            }
            i = i + 1;
        }
        assert(list@.take(list@.len() as int) =~= list@);
    }

    /// Adds the object `o` and the objects under it, each after its
    /// children, to the passes of the shaders that draw them, for the camera
    /// `cam`; `shaders` gives the shader of each object that has one (the
    /// shader of its renderer's material, as `render::resolve_shaders` finds
    /// it and `render::shader_map` lists it), the others are not drawn.
    pub fn prepare_passes_object(
        &mut self,
        o: &Object,
        shaders: &Vec<(ObjectId, String)>,
        cam: ObjectId,
    )
        requires
            old(self).wf(),
            keys_distinct(shaders@),
        ensures
            final(self).wf(),
            forall|s: Seq<char>, c: ObjectId| #[trigger]
                pass_objects(final(self)@, s, c) == if c == cam {
                    pass_objects(old(self)@, s, c) + drawn_with(children_first(seq![*o]), shaders@, s)
                } else {
                    pass_objects(old(self)@, s, c)
                },
            pass_names(final(self)@) == pass_names(old(self)@).union(
                shaders_used(children_first(seq![*o]), shaders@),
            ),
        decreases o,
    {
        let ghost before = self@;
        proof {
            assert(decreases_to!(*o => o.children));
        }
        self.prepare_passes_list(&o.children, shaders, cam);
        let ghost mid = self@;
        proof {
            lemma_children_first_one(*o);
            let kids = children_first(o.children@);
            let me = seq![o.id];
            assert(children_first(seq![*o]) == kids + me);
            assert forall|s: Seq<char>| #[trigger] drawn_with(children_first(seq![*o]), shaders@, s)
                == drawn_with(kids, shaders@, s) + drawn_with(me, shaders@, s) by {
                lemma_drawn_with_append(kids, me, shaders@, s);
            }
            lemma_shaders_used_append(kids, me, shaders@);
            assert(me.drop_last() =~= Seq::<ObjectId>::empty());
            assert(me.last() == o.id);
        }
        let ghost me = seq![o.id];
        match find_key(shaders, o.id) {
            Some(k) => {
                let ghost sh = shaders@[k as int].1@;
                self.add_object(shaders[k].1.as_str(), cam, o.id);
                proof {
                    assert(shader_of(shaders@, o.id) == Some(sh));
                    assert forall|s: Seq<char>| #[trigger] drawn_with(me, shaders@, s) == if s == sh {
                        seq![o.id]
                    } else {
                        Seq::<ObjectId>::empty()
                    } by {
                        assert(drawn_with(me.drop_last(), shaders@, s) == Seq::<ObjectId>::empty());
                        assert(Seq::<ObjectId>::empty().push(o.id) =~= seq![o.id]);
                    }
                    assert(shaders_used(me, shaders@) =~= set![sh]) by {
                        assert(drawn_with(me, shaders@, sh).len() > 0);
                    }
                    assert forall|s: Seq<char>, c: ObjectId| #[trigger]
                        pass_objects(self@, s, c) == if c == cam {
                            pass_objects(before, s, c) + drawn_with(
                                children_first(seq![*o]),
                                shaders@,
                                s,
                            )
                        } else {
                            pass_objects(before, s, c)
                        } by {
                        let kids = children_first(o.children@);
                        if c == cam {
                            if s == sh {
                                assert((pass_objects(before, s, c) + drawn_with(kids, shaders@, s)).push(
                                    o.id,
                                ) =~= pass_objects(before, s, c) + (drawn_with(kids, shaders@, s)
                                    + seq![o.id]));
                            } else {
                                assert(pass_objects(before, s, c) + drawn_with(kids, shaders@, s)
                                    =~= pass_objects(before, s, c) + (drawn_with(kids, shaders@, s)
                                    + Seq::<ObjectId>::empty()));
                            }
                        }
                    }
                    assert(pass_names(self@) =~= pass_names(before).union(
                        shaders_used(children_first(seq![*o]), shaders@),
                    ));
                }
            },
            None => {
                proof {
                    assert(shader_of(shaders@, o.id) is None);
                    assert forall|s: Seq<char>| #[trigger] drawn_with(me, shaders@, s)
                        == Seq::<ObjectId>::empty() by {
                        assert(drawn_with(me.drop_last(), shaders@, s) == Seq::<ObjectId>::empty());
                    }
                    assert(shaders_used(me, shaders@) =~= Set::<Seq<char>>::empty());
                    assert forall|s: Seq<char>, c: ObjectId| #[trigger]
                        pass_objects(self@, s, c) == if c == cam {
                            pass_objects(before, s, c) + drawn_with(
                                children_first(seq![*o]),
                                shaders@,
                                s,
                            )
                        } else {
                            pass_objects(before, s, c)
                        } by {
                        let kids = children_first(o.children@);
                        if c == cam {
                            assert(pass_objects(before, s, c) + drawn_with(kids, shaders@, s)
                                =~= pass_objects(before, s, c) + (drawn_with(kids, shaders@, s)
                                + Seq::<ObjectId>::empty()));
                        }
                    }
                    assert(pass_names(self@) =~= pass_names(before).union(
                        shaders_used(children_first(seq![*o]), shaders@),
                    ));
                }
            },
        }
    }
}

} // verus!
