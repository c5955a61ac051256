use vstd::prelude::*;
use vstd::string::*;

use crate::factory::{is_v4_id, new_v4_id};
use crate::keyed::{find_key, key_map, key_remove, key_set, keys_distinct};
use crate::scene::ObjectId;
use crate::widget::WidgetConfig;

verus! {

/// Where the item of an object goes in the tree widget.
#[derive(PartialEq, Eq, Structural, Clone, Copy, Debug)]
pub enum TreePlace {
    /// The object has an item already: nothing to add.
    Known,
    /// At the top of the tree.
    Top,
    /// Under this item, that of the object's parent.
    Under(usize),
    /// The object's parent has no item: the object gets none.
    ParentMissing,
}

/// The tree widget of the objects of a scene: its name, its id, its
/// configuration, and the item the toolkit gave for each object shown.
pub struct Tree {
    name: String,
    objects: Vec<(ObjectId, usize)>,
    id: ObjectId,
    config: WidgetConfig,
}

/// What a tree widget holds: its name, id and configuration, and the item
/// of each object shown, by object id.
pub struct TreeView {
    pub name: Seq<char>,
    pub id: ObjectId,
    pub config: WidgetConfig,
    pub items: Map<ObjectId, usize>,
}

impl View for Tree {
    type V = TreeView;

    closed spec fn view(&self) -> TreeView {
        TreeView { name: self.name@, id: self.id, config: self.config, items: key_map(self.objects@) }
    }
}

/// What taking the items of `ids` out of `m`, one id after the other,
/// leaves, and the items taken, in order.
pub open spec fn removal(m: Map<ObjectId, usize>, ids: Seq<ObjectId>) -> (
    Map<ObjectId, usize>,
    Seq<usize>,
)
    decreases ids.len(),
{
    if ids.len() == 0 {
        (m, seq![])
    } else {
        let (m1, r1) = removal(m, ids.drop_last());
        let k = ids.last();
        if m1.contains_key(k) {
            (m1.remove(k), r1.push(m1[k]))
        } else {
            (m1, r1)
        }
    }
}

/// The items of the ids of `ids` that `m` has, in order.
pub open spec fn items_found(m: Map<ObjectId, usize>, ids: Seq<ObjectId>) -> Seq<usize>
    decreases ids.len(),
{
    if ids.len() == 0 {
        seq![]
    } else {
        let r = items_found(m, ids.drop_last());
        if m.contains_key(ids.last()) {
            r.push(m[ids.last()])
        } else {
            r
        }
    }
}

impl Tree {
    pub closed spec fn wf(&self) -> bool {
        keys_distinct(self.objects@)
    }

    /// A tree with the configuration `config`, showing no object yet.
    pub fn new(config: &WidgetConfig) -> (t: Tree)
        ensures
            t.wf(),
            t@.items == Map::<ObjectId, usize>::empty(),
            t@.name == "tree_name"@,
            is_v4_id(t@.id),
            t@.config == *config,
    {
        let t = Tree {
            name: String::from_str("tree_name"),
            objects: Vec::new(),
            id: new_v4_id(),
            config: *config,
        };
        assert(t@.items =~= Map::<ObjectId, usize>::empty());
        t
    }

    /// Forgets the items (before the objects of another scene are shown).
    pub fn clear_objects(&mut self)
        ensures
            final(self).wf(),
            final(self)@.items == Map::<ObjectId, usize>::empty(),
            final(self)@.name == old(self)@.name,
            final(self)@.id == old(self)@.id,
            final(self)@.config == old(self)@.config,
    {
        self.objects = Vec::new();
        assert(self@.items =~= Map::<ObjectId, usize>::empty());
    }

    /// Where the item of the object `id`, child of `parent`, goes.
    pub fn placement(&self, id: ObjectId, parent: Option<ObjectId>) -> (p: TreePlace)
        requires
            self.wf(),
        ensures
            p == if self@.items.contains_key(id) {
                TreePlace::Known
            } else {
                match parent {
                    None => TreePlace::Top,
                    Some(pid) => if self@.items.contains_key(pid) {
                        TreePlace::Under(self@.items[pid])
                    } else {
                        TreePlace::ParentMissing
                    },
                }
            },
    {
        if find_key(&self.objects, id).is_some() {
            return TreePlace::Known;
        }
        match parent {
            None => TreePlace::Top,
            Some(pid) => match find_key(&self.objects, pid) {
                Some(i) => {
                    proof {
                        crate::keyed::lemma_key_map(self.objects@, pid);
                    }
                    TreePlace::Under(self.objects[i].1)
                },
                None => TreePlace::ParentMissing,
            },
        }
    }

    /// Keeps the item the toolkit gave for the object `id`.
    pub fn object_added(&mut self, id: ObjectId, item: usize)
        requires
            old(self).wf(),
        ensures
            final(self).wf(),
            final(self)@.items == old(self)@.items.insert(id, item),
            final(self)@.name == old(self)@.name,
            final(self)@.id == old(self)@.id,
            final(self)@.config == old(self)@.config,
    {
        key_set(&mut self.objects, id, item);
    }

    /// Takes out the items of the objects of `ids`, giving those taken, in
    /// order, for the toolkit to drop.
    pub fn remove_objects_by_id(&mut self, ids: &Vec<ObjectId>) -> (removed: Vec<usize>)
        requires
            old(self).wf(),
        ensures
            final(self).wf(),
            final(self)@.items == removal(old(self)@.items, ids@).0,
            removed@ == removal(old(self)@.items, ids@).1,
            final(self)@.name == old(self)@.name,
            final(self)@.id == old(self)@.id,
            final(self)@.config == old(self)@.config,
    {
        let mut removed: Vec<usize> = Vec::new();
        let mut i: usize = 0;
        while i < ids.len()
            invariant
                i <= ids@.len(),
                self.wf(),
                (self@.items, removed@) == removal(old(self)@.items, ids@.take(i as int)),
                self@.name == old(self)@.name,
                self@.id == old(self)@.id,
                self@.config == old(self)@.config,
            decreases ids.len() - i,
        {
            proof {
                let t = ids@.take(i + 1);
                assert(t.drop_last() =~= ids@.take(i as int));
                assert(t.last() == ids@[i as int]);
            }
            match key_remove(&mut self.objects, ids[i]) {
                Some(item) => removed.push(item),
                None => {},
            }
            i = i + 1;
        }
        assert(ids@.take(ids@.len() as int) =~= ids@);
        removed
    }

    /// The item of the object `id`, if it is shown.
    pub fn item_of(&self, id: ObjectId) -> (r: Option<usize>)
        requires
            self.wf(),
        ensures
            r == (if self@.items.contains_key(id) {
                Some(self@.items[id])
            } else {
                None
            }),
    {
        match find_key(&self.objects, id) {
            Some(i) => {
                proof {
                    crate::keyed::lemma_key_map(self.objects@, id);
                }
                Some(self.objects[i].1)
            },
            None => None,
        }
    }

    /// The items of the objects of `ids` that are shown, in order: those
    /// to select.
    pub fn items_of(&self, ids: &Vec<ObjectId>) -> (r: Vec<usize>)
        requires
            self.wf(),
        ensures
            r@ == items_found(self@.items, ids@),
    {
        let mut r: Vec<usize> = Vec::new();
        let mut i: usize = 0;
        while i < ids.len()
            invariant
                i <= ids@.len(),
                self.wf(),
                r@ == items_found(self@.items, ids@.take(i as int)),
            decreases ids.len() - i,
        {
            proof {
                let t = ids@.take(i + 1);
                assert(t.drop_last() =~= ids@.take(i as int));
                assert(t.last() == ids@[i as int]);
            }
            match self.item_of(ids[i]) {
                Some(item) => r.push(item),
                None => {},
            }
            i = i + 1;
        }
        assert(ids@.take(ids@.len() as int) =~= ids@);
        r
    }

    /// Shows or hides the tree.
    pub fn set_visible(&mut self, b: bool)
        ensures
            final(self)@.config == (WidgetConfig { visible: b, ..old(self)@.config }),
            final(self)@.items == old(self)@.items,
            final(self).wf() == old(self).wf(),
            final(self)@.name == old(self)@.name,
            final(self)@.id == old(self)@.id,
    {
        self.config.visible = b;
    }

    /// Whether the tree shows.
    pub fn visible(&self) -> (b: bool)
        ensures
            b == self@.config.visible,
    {
        self.config.visible
    }

    /// The configuration of the tree, to save.
    pub fn get_config(&self) -> (c: WidgetConfig)
        ensures
            c == self@.config,
    {
        self.config
    }

    /// The tree's name.
    pub fn name(&self) -> (n: &String)
        ensures
            n@ == self@.name,
    {
        &self.name
    }

    /// The tree's id, by which the changes it makes are known.
    pub fn id(&self) -> (i: ObjectId)
        ensures
            i == self@.id,
    {
        self.id
    }
}

} // verus!
