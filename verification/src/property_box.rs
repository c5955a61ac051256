use vstd::prelude::*;
use vstd::string::*;

use crate::factory::{is_v4_id, new_v4_id};
use crate::property_node::{
    child_added, child_deleted, children_add, children_del, children_get, children_ids,
    children_wf, node_add_child, node_del_child, node_new, rename_start, renamed, tree_wf,
    ChildrenView, NodeChildren, NodeId, NodeView, PropertyTree, PropertyValueRef,
};
use crate::scene::ObjectId;

verus! {

/// The place of the last '/' of `s`, or -1.
pub open spec fn last_sep(s: Seq<char>) -> int
    decreases s.len(),
{
    if s.len() == 0 {
        -1
    } else if s.last() == '/' {
        s.len() - 1
    } else {
        last_sep(s.drop_last())
    }
}

/// The path of the property that holds the one at `path`: what comes
/// before its last '/', or nothing.
pub open spec fn parent_path(path: Seq<char>) -> Seq<char> {
    let k = last_sep(path);
    if k >= 0 {
        path.take(k)
    } else {
        seq![]
    }
}

/// The field of the property at `path`: what comes after its last '/'.
pub open spec fn field_name(path: Seq<char>) -> Seq<char> {
    path.skip(last_sep(path) + 1)
}

proof fn lemma_last_sep_is(s: Seq<char>, k: int)
    requires
        -1 <= k < s.len(),
        k >= 0 ==> s[k] == '/',
        forall|i: int| k < i < s.len() ==> s[i] != '/',
    ensures
        last_sep(s) == k,
    decreases s.len(),
{
    if s.len() > 0 && k < s.len() - 1 {
        lemma_last_sep_is(s.drop_last(), k);
    }
}

/// Cuts a property path at its last '/': the path of the property that
/// holds it, and its field.
fn split_last(path: &str) -> (r: (String, String))
    ensures
        r.0@ == parent_path(path@),
        r.1@ == field_name(path@),
{
    let n = path.unicode_len();
    let mut k: usize = n;
    while k > 0
        invariant
            k <= n,
            n == path@.len(),
            forall|i: int| k <= i < n ==> path@[i] != '/',
        decreases k,
    {
        if path.get_char(k - 1) == '/' {
            proof {
                lemma_last_sep_is(path@, k - 1);
            }
            let parent = String::from_str(path.substring_char(0, k - 1));
            let field = String::from_str(path.substring_char(k, n));
            proof {
                assert(field@ =~= path@.skip(k as int));
            }
            return (parent, field);
        }
        k = k - 1;
    }
    proof {
        lemma_last_sep_is(path@, -1);
    }
    let field = String::from_str(path);
    assert(field@ =~= path@.skip(0));
    (String::new(), field)
}

/// The property widgets of the object shown in a property box: the box's
/// name, whether it shows, its id, and the tree of its property nodes
/// (`nodes` holds the top-level ones).
pub struct PropertyBox {
    pub name: String,
    pub visible: bool,
    pub id: ObjectId,
    pub tree: PropertyTree,
    pub nodes: NodeChildren,
}

/// The node that `path` names in the box (none where none does); `None`
/// where looking it up panics.
pub open spec fn box_get(tree: Seq<NodeView>, nodes: ChildrenView, path: Seq<char>) -> Option<
    Option<NodeId>,
> {
    children_get(tree, nodes, path)
}

/// The node for `item` named `field`, as it is put into the tree.
pub open spec fn new_node(field: Seq<char>, item: PropertyValueRef) -> NodeView {
    NodeView { value: item, children: ChildrenView::Empty, parent: None, name: field }
}

proof fn lemma_children_wf_grow(c: ChildrenView, n: nat)
    requires
        children_wf(c, n),
    ensures
        children_wf(c, n + 1),
{
}

impl PropertyBox {
    /// The tree is well formed and the top-level nodes are nodes of it.
    pub open spec fn wf(&self) -> bool {
        &&& tree_wf(self.tree@)
        &&& children_wf(self.nodes@, self.tree@.len())
    }

    /// A box with no node, shown, with a fresh random id.
    pub fn new() -> (b: PropertyBox)
        ensures
            b.wf(),
            b.name@ == "property_box_name"@,
            b.visible,
            is_v4_id(b.id),
            b.tree@.len() == 0,
            b.nodes@ == ChildrenView::Empty,
    {
        PropertyBox {
            name: String::from_str("property_box_name"),
            visible: true,
            id: new_v4_id(),
            tree: PropertyTree::new(),
            nodes: NodeChildren::Empty,
        }
    }

    /// Shows or hides the box.
    pub fn set_visible(&mut self, b: bool)
        ensures
            final(self).visible == b,
            final(self).name == old(self).name,
            final(self).id == old(self).id,
            final(self).tree == old(self).tree,
            final(self).nodes == old(self).nodes,
    {
        self.visible = b;
    }

    /// Whether the box shows.
    pub fn visible(&self) -> (b: bool)
        ensures
            b == self.visible,
    {
        self.visible
    }

    /// Forgets all the nodes (before another object is shown).
    pub fn clear_nodes(&mut self)
        ensures
            final(self).wf(),
            final(self).tree@.len() == 0,
            final(self).nodes@ == ChildrenView::Empty,
            final(self).name == old(self).name,
            final(self).visible == old(self).visible,
            final(self).id == old(self).id,
    {
        self.nodes = NodeChildren::Empty;
        self.tree = PropertyTree::new();
    }

    /// The node that `path` names, if any.
    pub fn get_node(&self, path: &str) -> (r: Option<NodeId>)
        requires
            self.wf(),
            box_get(self.tree@, self.nodes@, path@) is Some,
        ensures
            r == box_get(self.tree@, self.nodes@, path@)->0,
    {
        self.nodes.get_node(&self.tree, path)
    }

    /// Adds a node for the widget value `item` at `path`: under the node
    /// that holds it where the box has one, else among the top-level
    /// nodes. Gives that holding node, if any, and the new node.
    pub fn add_common(&mut self, path: &str, item: PropertyValueRef) -> (r: (
        Option<NodeId>,
        NodeId,
    ))
        requires
            old(self).wf(),
            box_get(old(self).tree@, old(self).nodes@, parent_path(path@)) is Some,
            match box_get(old(self).tree@, old(self).nodes@, parent_path(path@))->0 {
                Some(p) => children_add(
                    old(self).tree@[p as int].children,
                    field_name(path@),
                    old(self).tree@.len() as NodeId,
                ) is Some,
                None => children_add(
                    old(self).nodes@,
                    field_name(path@),
                    old(self).tree@.len() as NodeId,
                ) is Some,
            },
            old(self).tree@.len() < usize::MAX,
        ensures
            final(self).wf(),
            r.0 == box_get(old(self).tree@, old(self).nodes@, parent_path(path@))->0,
            r.1 == old(self).tree@.len(),
            ({
                let t1 = old(self).tree@.push(new_node(field_name(path@), item));
                match r.0 {
                    Some(p) => {
                        &&& child_added(t1, final(self).tree@, field_name(path@), p, r.1)
                        &&& final(self).nodes@ == old(self).nodes@
                    },
                    None => {
                        &&& Some(final(self).nodes@) == children_add(
                            old(self).nodes@,
                            field_name(path@),
                            r.1,
                        )
                        &&& renamed(
                            t1,
                            final(self).tree@,
                            children_ids(final(self).nodes@),
                            rename_start(old(self).nodes@, field_name(path@), true),
                        )
                    },
                }
            }),
            final(self).name == old(self).name,
            final(self).visible == old(self).visible,
            final(self).id == old(self).id,
    {
        let (parent_path, field) = split_last(path);
        let parent = self.nodes.get_node(&self.tree, parent_path.as_str());
        proof {
            if let Some(p) = parent {
                crate::property_node::lemma_children_get_in(self.tree@, self.nodes@, parent_path@);
            }
            lemma_children_wf_grow(self.nodes@, self.tree@.len());
        }
        let node = self.tree.add(node_new(field.as_str(), item));
        assert(self.tree@.len() == old(self).tree@.len() + 1);
        match parent {
            Some(p) => {
                node_add_child(&mut self.tree, field.as_str(), p, node);
            },
            None => {
                self.nodes.add_node(&mut self.tree, field.as_str(), node);
            },
        }
        (parent, node)
    }

    /// Removes the node at `path`: from the children of the node that holds
    /// it where the box has one, else from the top-level nodes. Gives that
    /// holding node, if any.
    pub fn del_common(&mut self, path: &str) -> (r: Option<NodeId>)
        requires
            old(self).wf(),
            box_get(old(self).tree@, old(self).nodes@, parent_path(path@)) is Some,
            match box_get(old(self).tree@, old(self).nodes@, parent_path(path@))->0 {
                Some(p) => children_del(old(self).tree@[p as int].children, field_name(path@)) is Some,
                None => children_del(old(self).nodes@, field_name(path@)) is Some,
            },
        ensures
            final(self).wf(),
            r == box_get(old(self).tree@, old(self).nodes@, parent_path(path@))->0,
            match r {
                Some(p) => {
                    &&& child_deleted(old(self).tree@, final(self).tree@, field_name(path@), p)
                    &&& final(self).nodes@ == old(self).nodes@
                },
                None => {
                    &&& Some(final(self).nodes@) == children_del(old(self).nodes@, field_name(path@))
                    &&& renamed(
                        old(self).tree@,
                        final(self).tree@,
                        children_ids(final(self).nodes@),
                        rename_start(old(self).nodes@, field_name(path@), false),
                    )
                },
            },
            final(self).name == old(self).name,
            final(self).visible == old(self).visible,
            final(self).id == old(self).id,
    {
        let (parent_path, field) = split_last(path);
        let parent = self.nodes.get_node(&self.tree, parent_path.as_str());
        proof {
            if let Some(p) = parent {
                crate::property_node::lemma_children_get_in(self.tree@, self.nodes@, parent_path@);
            }
        }
        match parent {
            Some(p) => {
                node_del_child(&mut self.tree, field.as_str(), p);
            },
            None => {
                self.nodes.del_node(&mut self.tree, field.as_str());
            },
        }
        parent
    }
}

} // verus!
