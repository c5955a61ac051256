use vstd::prelude::*;
use vstd::string::*;

use crate::material::Fbo;
use crate::shader::Shader;

verus! {

/// Identifies a loaded resource: its place in the store of the manager that
/// loaded it.
pub type ResourceId = usize;

/// What a name is bound to: a loaded resource, a load under way, or nothing.
#[derive(PartialEq, Eq, Structural, Clone, Copy, Debug)]
pub enum ResTest {
    ResData(ResourceId),
    ResWait,
    ResNone,
}

/// A reference to a resource by name, with what it is bound to so far.
#[derive(Clone)]
pub struct ResTT {
    pub name: String,
    pub resource: ResTest,
}

/// What a kind of resource knows of itself: how to make one from its name,
/// and how to finish setting it up.
pub trait Create: Sized {
    /// The name of what the resource was made from.
    spec fn made_for(&self) -> String;

    fn create(name: &str) -> (r: Self)
        ensures
            r.made_for()@ == name@,
    ;

    fn inittt(&mut self)
        ensures
            final(self).made_for()@ == old(self).made_for()@,
    ;
}

/// A resource that can set itself up.
pub trait ResourceT {
    fn init(&mut self);
}

/// Loads resources by name, each at most once, and keeps them.
pub struct ResourceManager<T> {
    resources: Vec<(String, ResTest)>,
    store: Vec<T>,
    pending: Vec<String>,
}

pub struct ManagerView<T> {
    /// What each name that was asked for is bound to.
    pub entries: Seq<(Seq<char>, ResTest)>,
    /// The resources loaded so far, by id.
    pub store: Seq<T>,
    /// The names whose loading was asked for and not yet handed out to a loader.
    pub pending: Seq<Seq<char>>,
}

impl<T> View for ResourceManager<T> {
    type V = ManagerView<T>;

    closed spec fn view(&self) -> ManagerView<T> {
        ManagerView {
            entries: self.resources@.map_values(|e: (String, ResTest)| (e.0@, e.1)),
            store: self.store@,
            pending: self.pending@.map_values(|s: String| s@),
        }
    }
}

/// The place of the entry for `name`, if any.
pub open spec fn entry_index(es: Seq<(Seq<char>, ResTest)>, name: Seq<char>) -> Option<int>
    decreases es.len(),
{
    if es.len() == 0 {
        None
    } else if es.last().0 == name && entry_index(es.drop_last(), name) is None {
        Some(es.len() - 1)
    } else {
        entry_index(es.drop_last(), name)
    }
}

/// What `name` is bound to (nothing where it was never asked for).
pub open spec fn state_of(es: Seq<(Seq<char>, ResTest)>, name: Seq<char>) -> ResTest {
    match entry_index(es, name) {
        Some(i) => es[i].1,
        None => ResTest::ResNone,
    }
}

/// `es` with `name` bound to `st` (replacing the binding where there is one).
pub open spec fn entries_set(es: Seq<(Seq<char>, ResTest)>, name: Seq<char>, st: ResTest) -> Seq<
    (Seq<char>, ResTest),
> {
    match entry_index(es, name) {
        Some(i) => es.update(i, (name, st)),
        None => es.push((name, st)),
    }
}

/// Names are bound once each, every loaded binding names one of the first
/// `n` resources, and no two names share one.
pub open spec fn entries_wf(es: Seq<(Seq<char>, ResTest)>, n: nat) -> bool {
    &&& forall|i: int, j: int| 0 <= i < j < es.len() ==> #[trigger] es[i].0 != #[trigger] es[j].0
    &&& forall|i: int|
        0 <= i < es.len() ==> (#[trigger] es[i].1 matches ResTest::ResData(id) ==> id < n)
    &&& forall|i: int, j: int|
        0 <= i < es.len() && 0 <= j < es.len() && i != j ==> match (
            #[trigger] es[i].1,
            #[trigger] es[j].1,
        ) {
            (ResTest::ResData(a), ResTest::ResData(b)) => a != b,
            _ => true,
        }
}

impl<T> ManagerView<T> {
    pub open spec fn wf(self) -> bool {
        entries_wf(self.entries, self.store.len())
    }

    pub open spec fn state(self, name: Seq<char>) -> ResTest {
        state_of(self.entries, name)
    }

    /// Nothing asked for, loaded or queued.
    pub open spec fn fresh(self) -> bool {
        &&& self.entries == Seq::<(Seq<char>, ResTest)>::empty()
        &&& self.store == Seq::<T>::empty()
        &&& self.pending == Seq::<Seq<char>>::empty()
    }
}

/// `after` is `before` once `name` was asked for at once: a manager that
/// had it loaded is unchanged and gave its id; another made it from `name`
/// (see `Create`) and kept it as a new resource after the ones it had, bound
/// to `name`.
pub open spec fn loaded_now<T: Create>(
    before: ManagerView<T>,
    after: ManagerView<T>,
    name: Seq<char>,
    id: ResourceId,
) -> bool {
    &&& after.wf()
    &&& after.state(name) == ResTest::ResData(id)
    &&& after.pending == before.pending
    &&& match before.state(name) {
        ResTest::ResData(d) => id == d && after == before,
        _ => {
            &&& id == before.store.len()
            &&& after.store.len() == before.store.len() + 1
            &&& after.store[id as int].made_for()@ == name
            &&& after.store.take(id as int) == before.store
            &&& after.entries == entries_set(before.entries, name, ResTest::ResData(id))
        },
    }
}

/// `after` is `before` once `name` was asked for without waiting: where
/// `name` was bound to nothing, it is now being loaded and is queued for a
/// loader, the store kept; else nothing changed.
pub open spec fn asked<T>(before: ManagerView<T>, after: ManagerView<T>, name: Seq<char>) -> bool {
    match before.state(name) {
        ResTest::ResNone => {
            &&& after.entries == entries_set(before.entries, name, ResTest::ResWait)
            &&& after.pending == before.pending.push(name)
            &&& after.store == before.store
        },
        _ => after == before,
    }
}

pub proof fn lemma_entry_index(es: Seq<(Seq<char>, ResTest)>, name: Seq<char>)
    ensures
        match entry_index(es, name) {
            Some(i) => 0 <= i < es.len() && es[i].0 == name,
            None => forall|k: int| 0 <= k < es.len() ==> es[k].0 != name,
        },
    decreases es.len(),
{
    if es.len() > 0 {
        lemma_entry_index(es.drop_last(), name);
        assert forall|k: int| 0 <= k < es.len() - 1 implies es[k] == es.drop_last()[k] by {}
    }
}

/// With unique names, the entry for `name` is the one that carries it.
proof fn lemma_entry_index_unique(es: Seq<(Seq<char>, ResTest)>, name: Seq<char>, k: int)
    requires
        0 <= k < es.len(),
        es[k].0 == name,
        forall|i: int, j: int| 0 <= i < j < es.len() ==> #[trigger] es[i].0 != #[trigger] es[j].0,
    ensures
        entry_index(es, name) == Some(k),
{
    lemma_entry_index(es, name);
    if let Some(i) = entry_index(es, name) {
        if i < k {
            assert(es[i].0 != es[k].0);
        } else if i > k {
            assert(es[k].0 != es[i].0);
        }
    }
}

proof fn lemma_entry_index_prefix(v: Seq<(Seq<char>, ResTest)>, k: int, key: Seq<char>)
    requires
        0 <= k <= v.len(),
    ensures
        entry_index(v.take(k), key) is Some ==> entry_index(v, key) == entry_index(v.take(k), key),
        entry_index(v.take(k), key) is None && k < v.len() && v[k].0 == key ==> entry_index(v, key)
            == Some(k),
        entry_index(v.take(k), key) is None && k == v.len() ==> entry_index(v, key) is None,
    decreases v.len() - k,
{
    if k < v.len() {
        lemma_entry_index_prefix(v, k + 1, key);
        let t = v.take(k + 1);
        assert(t.drop_last() =~= v.take(k));
    } else {
        assert(v.take(k) =~= v);
    }
}

impl<T> ResourceManager<T> {
    /// A manager that has loaded nothing.
    pub fn new() -> (m: ResourceManager<T>)
        ensures
            m@.entries == Seq::<(Seq<char>, ResTest)>::empty(),
            m@.store == Seq::<T>::empty(),
            m@.pending == Seq::<Seq<char>>::empty(),
            m@.wf(),
    {
        let m = ResourceManager { resources: Vec::new(), store: Vec::new(), pending: Vec::new() };
        assert(m@.entries =~= Seq::<(Seq<char>, ResTest)>::empty());
        assert(m@.pending =~= Seq::<Seq<char>>::empty());
        m
    }

    fn find(&self, name: &str) -> (r: Option<usize>)
        ensures
            match r {
                Some(i) => i < self@.entries.len() && entry_index(self@.entries, name@) == Some(
                    i as int,
                ),
                None => entry_index(self@.entries, name@) is None,
            },
    {
        let ghost v = self@.entries;
        let key = String::from_str(name);
        let mut i: usize = 0;
        while i < self.resources.len()
            invariant
                i <= self.resources.len(),
                v == self@.entries,
                key@ == name@,
                entry_index(v.take(i as int), name@) is None,
            decreases self.resources.len() - i,
        {
            proof {
                let t = v.take(i + 1);
                assert(t.drop_last() =~= v.take(i as int));
                assert(v[i as int] == (self.resources@[i as int].0@, self.resources@[i as int].1));
            }
            if self.resources[i].0 == key {
                proof {
                    lemma_entry_index_prefix(v, i as int, name@);
                }
                return Some(i);
            }
            i = i + 1;
        }
        proof {
            lemma_entry_index_prefix(v, v.len() as int, name@);
        }
        None
    }

    /// What `name` is bound to.
    pub fn state(&self, name: &str) -> (r: ResTest)
        ensures
            r == self@.state(name@),
    {
        match self.find(name) {
            Some(i) => {
                proof {
                    assert(self@.entries[i as int].1 == self.resources@[i as int].1);
                }
                self.resources[i].1
            },
            None => ResTest::ResNone,
        }
    }

    /// Binds `name` to `st`.
    fn bind(&mut self, name: &str, st: ResTest)
        ensures
            final(self)@.entries == entries_set(old(self)@.entries, name@, st),
            final(self)@.store == old(self)@.store,
            final(self)@.pending == old(self)@.pending,
    {
        match self.find(name) {
            Some(i) => {
                self.resources.set(i, (String::from_str(name), st));
            },
            None => {
                self.resources.push((String::from_str(name), st));
            },
        }
        assert(self@.entries =~= entries_set(old(self)@.entries, name@, st));
    }

    /// The resource with id `id`.
    pub fn get(&self, id: ResourceId) -> (r: &T)
        requires
            id < self@.store.len(),
        ensures
            *r == self@.store[id as int],
    {
        &self.store[id]
    }

    /// How many resources were loaded.
    pub fn count(&self) -> (n: usize)
        ensures
            n == self@.store.len(),
    {
        self.store.len()
    }

    /// Puts `value` in place of the resource with id `id`, giving the old one back.
    pub fn replace(&mut self, id: ResourceId, value: T) -> (old_value: T)
        requires
            id < old(self)@.store.len(),
        ensures
            final(self)@.entries == old(self)@.entries,
            final(self)@.pending == old(self)@.pending,
            final(self)@.store == old(self)@.store.update(id as int, value),
            old_value == old(self)@.store[id as int],
    {
        let mut v = value;
        self.store.set_and_swap(id, &mut v);
        v
    }

    /// Keeps a resource that was made for `name` and binds `name` to it.
    fn keep(&mut self, name: &str, value: T) -> (id: ResourceId)
        requires
            old(self)@.wf(),
        ensures
            id == old(self)@.store.len(),
            final(self)@.store == old(self)@.store.push(value),
            final(self)@.entries == entries_set(old(self)@.entries, name@, ResTest::ResData(id)),
            final(self)@.pending == old(self)@.pending,
            final(self)@.wf(),
    {
        let id = self.store.len();
        self.store.push(value);
        let ghost before = self@;
        self.bind(name, ResTest::ResData(id));
        proof {
            lemma_set_keeps_wf(before.entries, name@, id);
        }
        id
    }

    /// Asks for the resource `name` without waiting: what it is bound to if
    /// it is loaded or being loaded; where it is not, it is marked as being
    /// loaded and its name is queued for a loader (see `take_pending`).
    pub fn request_use(&mut self, name: &str) -> (r: ResTest)
        requires
            old(self)@.wf(),
        ensures
            final(self)@.wf(),
            final(self)@.store == old(self)@.store,
            match old(self)@.state(name@) {
                ResTest::ResData(id) => r == ResTest::ResData(id) && final(self)@ == old(self)@,
                ResTest::ResWait => r == ResTest::ResWait && final(self)@ == old(self)@,
                ResTest::ResNone => {
                    &&& r == ResTest::ResWait
                    &&& final(self)@.entries == entries_set(old(self)@.entries, name@, ResTest::ResWait)
                    &&& final(self)@.pending == old(self)@.pending.push(name@)
                },
            },
            final(self)@.state(name@) == r,
            asked(old(self)@, final(self)@, name@),
    {
        let st = self.state(name);
        match st {
            ResTest::ResData(id) => ResTest::ResData(id),
            ResTest::ResWait => ResTest::ResWait,
            ResTest::ResNone => {
                let ghost before = self@;
                self.bind(name, ResTest::ResWait);
                self.pending.push(String::from_str(name));
                proof {
                    assert(self@.pending =~= before.pending.push(name@));
                    lemma_entry_index(before.entries, name@);
                    let r = entries_set(before.entries, name@, ResTest::ResWait);
                    let es = before.entries;
                    assert forall|i: int, j: int| 0 <= i < j < r.len() implies #[trigger] r[i].0
                        != #[trigger] r[j].0 by {
                        match entry_index(es, name@) {
                            Some(k) => {
                                if i != k && j != k {
                                    assert(r[i] == es[i] && r[j] == es[j]);
                                } else if i == k {
                                    assert(es[j].0 != es[k].0);
                                } else {
                                    assert(es[i].0 != es[k].0);
                                }
                            },
                            None => {
                                if j == es.len() {
                                    assert(es[i].0 != name@);
                                } else {
                                    assert(r[i] == es[i] && r[j] == es[j]);
                                }
                            },
                        }
                    }
                    assert forall|i: int| 0 <= i < r.len() implies (#[trigger] r[i].1 matches ResTest::ResData(
                        d,
                    ) ==> d < before.store.len()) by {
                        if i < es.len() && entry_index(es, name@) != Some(i) {
                            assert(r[i] == es[i]);
                        }
                    }
                    assert forall|i: int, j: int|
                        0 <= i < r.len() && 0 <= j < r.len() && i != j implies match (
                        #[trigger] r[i].1,
                        #[trigger] r[j].1,
                    ) {
                        (ResTest::ResData(a), ResTest::ResData(b)) => a != b,
                        _ => true,
                    } by {
                        if i < es.len() && entry_index(es, name@) != Some(i) {
                            assert(r[i] == es[i]);
                        }
                        if j < es.len() && entry_index(es, name@) != Some(j) {
                            assert(r[j] == es[j]);
                        }
                    }
                    lemma_entry_index(r, name@);
                    match entry_index(es, name@) {
                        Some(k) => lemma_entry_index_unique(r, name@, k),
                        None => lemma_entry_index_unique(r, name@, es.len() as int),
                    }
                }
                ResTest::ResWait
            },
        }
    }

    /// Hands out the names queued for loading, oldest first, and empties the queue.
    pub fn take_pending(&mut self) -> (names: Vec<String>)
        ensures
            names@.map_values(|s: String| s@) == old(self)@.pending,
            final(self)@.pending == Seq::<Seq<char>>::empty(),
            final(self)@.entries == old(self)@.entries,
            final(self)@.store == old(self)@.store,
    {
        let mut names: Vec<String> = Vec::new();
        std::mem::swap(&mut names, &mut self.pending);
        assert(self@.pending =~= Seq::<Seq<char>>::empty());
        names
    }

    /// A loader has made `value` for `name`: it is kept and `name` is bound to it.
    pub fn loaded(&mut self, name: &str, value: T) -> (id: ResourceId)
        requires
            old(self)@.wf(),
        ensures
            id == old(self)@.store.len(),
            final(self)@.store == old(self)@.store.push(value),
            final(self)@.entries == entries_set(old(self)@.entries, name@, ResTest::ResData(id)),
            final(self)@.pending == old(self)@.pending,
            final(self)@.state(name@) == ResTest::ResData(id),
            final(self)@.wf(),
    {
        let id = self.keep(name, value);
        proof {
            law_state_after_set(old(self)@.entries, name@, ResTest::ResData(id));
        }
        id
    }

    /// The resource `name`, made and set up here and now where it is not
    /// loaded yet (also where a load is under way).
    pub fn request_use_no_proc(&mut self, name: &str) -> (id: ResourceId) where T: Create
        requires
            old(self)@.wf(),
        ensures
            loaded_now(old(self)@, final(self)@, name@, id),
    {
        match self.state(name) {
            ResTest::ResData(id) => id,
            _ => {
                let mut mt = T::create(name);
                mt.inittt();
                let id = self.loaded(name, mt);
                assert(self@.store.take(id as int) =~= old(self)@.store);
                id
            },
        }
    }
}

/// A name reads back the binding it was just given, and every other name
/// keeps the binding it had.
pub proof fn law_state_after_set(es: Seq<(Seq<char>, ResTest)>, name: Seq<char>, st: ResTest)
    requires
        forall|i: int, j: int| 0 <= i < j < es.len() ==> #[trigger] es[i].0 != #[trigger] es[j].0,
    ensures
        forall|other: Seq<char>| #[trigger] state_of(entries_set(es, name, st), other) == if other == name {
            st
        } else {
            state_of(es, other)
        },
{
    lemma_entry_index(es, name);
    let r = entries_set(es, name, st);
    assert forall|i: int, j: int| 0 <= i < j < r.len() implies #[trigger] r[i].0 != #[trigger] r[j].0 by {
        match entry_index(es, name) {
            Some(k) => {
                if i != k && j != k {
                    assert(r[i] == es[i] && r[j] == es[j]);
                } else if i == k {
                    assert(es[j].0 != es[k].0);
                } else {
                    assert(es[i].0 != es[k].0);
                }
            },
            None => {
                if j == es.len() {
                    assert(es[i].0 != name);
                } else {
                    assert(r[i] == es[i] && r[j] == es[j]);
                }
            },
        }
    }
    assert forall|other: Seq<char>| #[trigger] state_of(r, other) == if other == name {
        st
    } else {
        state_of(es, other)
    } by {
        lemma_entry_index(es, other);
        lemma_entry_index(r, other);
        if other == name {
            match entry_index(es, name) {
                Some(k) => lemma_entry_index_unique(r, name, k),
                None => lemma_entry_index_unique(r, name, es.len() as int),
            }
        } else {
            match entry_index(es, other) {
                Some(k) => {
                    assert(r[k] == es[k]);
                    lemma_entry_index_unique(r, other, k);
                },
                None => {
                    if let Some(k) = entry_index(r, other) {
                        if k < es.len() {
                            assert(r[k] == es[k] || r[k].0 == name);
                        }
                    }
                },
            }
        }
    }
}

/// Binding a name to a fresh id keeps names and ids unique.
proof fn lemma_set_keeps_wf(es: Seq<(Seq<char>, ResTest)>, name: Seq<char>, id: ResourceId)
    requires
        entries_wf(es, id as nat),
    ensures
        entries_wf(entries_set(es, name, ResTest::ResData(id)), id as nat + 1),
{
    lemma_entry_index(es, name);
    let r = entries_set(es, name, ResTest::ResData(id));
    match entry_index(es, name) {
        Some(k) => {
            assert forall|i: int, j: int| 0 <= i < j < r.len() implies #[trigger] r[i].0
                != #[trigger] r[j].0 by {
                if i != k && j != k {
                    assert(r[i] == es[i] && r[j] == es[j]);
                } else if i == k {
                    assert(es[j].0 != es[k].0);
                } else {
                    assert(es[i].0 != es[k].0);
                }
            }
            assert forall|i: int, j: int|
                0 <= i < r.len() && 0 <= j < r.len() && i != j implies match (
                #[trigger] r[i].1,
                #[trigger] r[j].1,
            ) {
                (ResTest::ResData(a), ResTest::ResData(b)) => a != b,
                _ => true,
            } by {
                if i != k && j != k {
                    assert(r[i] == es[i] && r[j] == es[j]);
                } else if i == k {
                    assert(r[j] == es[j]);
                } else {
                    assert(r[i] == es[i]);
                }
            }
        },
        None => {
            assert forall|i: int, j: int| 0 <= i < j < r.len() implies #[trigger] r[i].0
                != #[trigger] r[j].0 by {
                if j == es.len() {
                    assert(es[i].0 != name);
                } else {
                    assert(r[i] == es[i] && r[j] == es[j]);
                }
            }
            assert forall|i: int, j: int|
                0 <= i < r.len() && 0 <= j < r.len() && i != j implies match (
                #[trigger] r[i].1,
                #[trigger] r[j].1,
            ) {
                (ResTest::ResData(a), ResTest::ResData(b)) => a != b,
                _ => true,
            } by {
                if i < es.len() {
                    assert(r[i] == es[i]);
                }
                if j < es.len() {
                    assert(r[j] == es[j]);
                }
            }
        },
    }
    assert forall|i: int| 0 <= i < r.len() implies (#[trigger] r[i].1 matches ResTest::ResData(
        d,
    ) ==> d < id + 1) by {
        if i < es.len() && (entry_index(es, name) != Some(i)) {
            assert(r[i] == es[i]);
        }
    }
}


impl ResTT {
    /// A reference to `name`, not bound yet.
    pub fn new(name: &str) -> (r: ResTT)
        ensures
            r.name@ == name@,
            r.resource == ResTest::ResNone,
    {
        ResTT { name: String::from_str(name), resource: ResTest::ResNone }
    }

    /// A reference to `name`, loaded at once through `rm`.
    pub fn new_instant<T: Create>(name: &str, rm: &mut ResourceManager<T>) -> (r: ResTT)
        requires
            old(rm)@.wf(),
        ensures
            r.name@ == name@,
            r.resource matches ResTest::ResData(id) && loaded_now(old(rm)@, final(rm)@, name@, id),
    {
        let mut r = ResTT::new(name);
        r.load_instant(rm);
        r
    }

    /// A reference to `name` bound to `res`.
    pub fn new_with_res(name: &str, res: ResTest) -> (r: ResTT)
        ensures
            r.name@ == name@,
            r.resource == res,
    {
        ResTT { name: String::from_str(name), resource: res }
    }

    /// Sets the text property at `name`: "name" renames the reference,
    /// which is then bound to nothing; any other path changes nothing.
    pub fn test_set_property_hier(&mut self, name: &str, value: &String)
        ensures
            if name@ == "name"@ {
                final(self).name@ == value@ && final(self).resource == ResTest::ResNone
            } else {
                *final(self) == *old(self)
            },
    {
        let n = String::from_str(name);
        let key = String::from_str("name");
        if n == key {
            self.name = value.clone();
            self.resource = ResTest::ResNone;
        }
    }

    /// The resource, where it is loaded; else asks `manager` for it without
    /// waiting (see `resource_get`).
    pub fn get_resource<T: Create>(&mut self, manager: &mut ResourceManager<T>) -> (r: Option<
        ResourceId,
    >)
        requires
            old(manager)@.wf(),
        ensures
            final(manager)@.wf(),
            final(self).name == old(self).name,
            match old(self).resource {
                ResTest::ResData(d) => r == Some(d) && final(self).resource == old(self).resource
                    && final(manager)@ == old(manager)@,
                _ => {
                    &&& final(self).resource == old(manager)@.state(old(self).name@).ask_result()
                    &&& r == final(self).resource.loaded_id()
                    &&& final(manager)@.state(old(self).name@) == final(self).resource
                    &&& asked(old(manager)@, final(manager)@, old(self).name@)
                },
            },
    {
        match self.resource {
            ResTest::ResData(d) => Some(d),
            _ => resource_get(manager, self),
        }
    }

    /// Binds this reference to its resource, made at once where `manager`
    /// has not loaded it yet; a reference already bound stays as it is.
    pub fn load_instant<T: Create>(&mut self, manager: &mut ResourceManager<T>)
        requires
            old(manager)@.wf(),
        ensures
            final(self).name == old(self).name,
            match old(self).resource {
                ResTest::ResData(_) => final(self).resource == old(self).resource && final(manager)@
                    == old(manager)@,
                _ => final(self).resource matches ResTest::ResData(id) && loaded_now(
                    old(manager)@,
                    final(manager)@,
                    old(self).name@,
                    id,
                ),
            },
    {
        match self.resource {
            ResTest::ResNone | ResTest::ResWait => {
                let data = manager.request_use_no_proc(self.name.as_str());
                self.resource = ResTest::ResData(data);
            },
            _ => {},
        }
    }

    /// The resource, made at once where it is not loaded yet.
    pub fn get_resource_instant<T: Create>(&mut self, manager: &mut ResourceManager<T>) -> (id:
        ResourceId)
        requires
            old(manager)@.wf(),
        ensures
            final(self).name == old(self).name,
            final(self).resource == ResTest::ResData(id),
            match old(self).resource {
                ResTest::ResData(d) => id == d && final(manager)@ == old(manager)@,
                _ => loaded_now(old(manager)@, final(manager)@, old(self).name@, id),
            },
    {
        match self.resource {
            ResTest::ResData(d) => d,
            _ => {
                let data = manager.request_use_no_proc(self.name.as_str());
                self.resource = ResTest::ResData(data);
                data
            },
        }
    }
}

impl ResTest {
    /// What asking for a resource in this state gives: the loaded resource,
    /// else a load under way.
    pub open spec fn ask_result(self) -> ResTest {
        match self {
            ResTest::ResData(d) => ResTest::ResData(d),
            _ => ResTest::ResWait,
        }
    }

    /// The loaded resource, if any.
    pub open spec fn loaded_id(self) -> Option<ResourceId> {
        match self {
            ResTest::ResData(d) => Some(d),
            _ => None,
        }
    }
}

/// Asks `manager` for the resource of `res` without waiting, where `res` is
/// not bound to a loaded resource yet: `res` is bound to what the manager
/// answers, and the resource is given where it is loaded.
pub fn resource_get<T: Create>(manager: &mut ResourceManager<T>, res: &mut ResTT) -> (r: Option<
    ResourceId,
>)
    requires
        old(manager)@.wf(),
    ensures
        final(manager)@.wf(),
        final(res).name == old(res).name,
        match old(res).resource {
            ResTest::ResData(d) => r == Some(d) && final(res).resource == old(res).resource
                && final(manager)@ == old(manager)@,
            _ => {
                &&& final(res).resource == old(manager)@.state(old(res).name@).ask_result()
                &&& r == final(res).resource.loaded_id()
                &&& final(manager)@.state(old(res).name@) == final(res).resource
                &&& asked(old(manager)@, final(manager)@, old(res).name@)
            },
        },
{
    match res.resource {
        ResTest::ResNone | ResTest::ResWait => {
            res.resource = manager.request_use(res.name.as_str());
            match res.resource {
                ResTest::ResData(d) => Some(d),
                _ => None,
            }
        },
        ResTest::ResData(d) => Some(d),
    }
}

/// In a well-formed manager, two names that are bound to loaded resources
/// are bound to different ones, and each of those is in the store.
pub proof fn law_loaded_names_distinct<T>(m: ManagerView<T>, a: Seq<char>, b: Seq<char>)
    requires
        m.wf(),
    ensures
        m.state(a) matches ResTest::ResData(d) ==> d < m.store.len(),
        a != b ==> match (m.state(a), m.state(b)) {
            (ResTest::ResData(x), ResTest::ResData(y)) => x != y,
            _ => true,
        },
{
    lemma_entry_index(m.entries, a);
    lemma_entry_index(m.entries, b);
    if let Some(i) = entry_index(m.entries, a) {
        assert(m.entries[i].1 == m.state(a));
        if let Some(j) = entry_index(m.entries, b) {
            assert(m.entries[j].1 == m.state(b));
        }
    }
}

/// The managers of each kind of resource of the editor. Meshes, textures,
/// materials and armatures are read from files as they are made, so the
/// program gives their types; shaders and frame buffers are made here.
pub struct ResourceGroup<Me, Tx, Ma, Ar> {
    pub mesh_manager: ResourceManager<Me>,
    pub shader_manager: ResourceManager<Shader>,
    pub texture_manager: ResourceManager<Tx>,
    pub material_manager: ResourceManager<Ma>,
    pub fbo_manager: ResourceManager<Fbo>,
    pub armature_manager: ResourceManager<Ar>,
}

impl<Me, Tx, Ma, Ar> ResourceGroup<Me, Tx, Ma, Ar> {
    /// Managers that have loaded nothing yet.
    pub fn new() -> (g: ResourceGroup<Me, Tx, Ma, Ar>)
        ensures
            g.mesh_manager@.fresh(),
            g.shader_manager@.fresh(),
            g.texture_manager@.fresh(),
            g.material_manager@.fresh(),
            g.fbo_manager@.fresh(),
            g.armature_manager@.fresh(),
    {
        ResourceGroup {
            mesh_manager: ResourceManager::new(),
            shader_manager: ResourceManager::new(),
            texture_manager: ResourceManager::new(),
            material_manager: ResourceManager::new(),
            fbo_manager: ResourceManager::new(),
            armature_manager: ResourceManager::new(),
        }
    }
}


/// A name asked for is loaded or being loaded, so asking for it again
/// changes nothing: its load is queued once, by the first ask, and every
/// other name keeps its binding.
pub proof fn law_asked_once<T>(m0: ManagerView<T>, m1: ManagerView<T>, m2: ManagerView<T>, name: Seq<char>)
    requires
        m0.wf(),
        asked(m0, m1, name),
        asked(m1, m2, name),
    ensures
        m1.state(name) != ResTest::ResNone,
        m2 == m1,
        m1.pending == if m0.state(name) == ResTest::ResNone {
            m0.pending.push(name)
        } else {
            m0.pending
        },
        forall|other: Seq<char>| other != name ==> #[trigger] m1.state(other) == m0.state(other),
{
    if m0.state(name) == ResTest::ResNone {
        law_state_after_set(m0.entries, name, ResTest::ResWait);
    }
}

} // verus!
