use vstd::prelude::*;
use vstd::string::*;

use crate::number::{decimal, index_to_string, parse_usize, parse_usize_spec};
use crate::util::string_push;

verus! {

/// Identifies a node of a property tree: its place in the tree's arena.
pub type NodeId = usize;

/// Identifies the widget value that the user interface gave for a node.
pub type PropertyValueRef = usize;

/// The children of a property node: none yet, named fields of a structure,
/// or the items of a vector (each named by its index).
pub enum NodeChildren {
    Empty,
    Struct(Vec<(String, NodeId)>),
    Vec(Vec<NodeId>),
}

pub struct PropertyNode {
    value: PropertyValueRef,
    children: NodeChildren,
    parent: Option<NodeId>,
    name: String,
}

/// The nodes of the property widgets of one object, in an arena: a node's
/// children and parent are the places of other nodes in `nodes`.
pub struct PropertyTree {
    nodes: Vec<PropertyNode>,
}

pub enum ChildrenView {
    Empty,
    Struct(Seq<(Seq<char>, NodeId)>),
    Vec(Seq<NodeId>),
}

pub struct NodeView {
    pub value: PropertyValueRef,
    pub children: ChildrenView,
    pub parent: Option<NodeId>,
    pub name: Seq<char>,
}

impl View for NodeChildren {
    type V = ChildrenView;

    open spec fn view(&self) -> ChildrenView {
        match self {
            NodeChildren::Empty => ChildrenView::Empty,
            NodeChildren::Struct(v) => ChildrenView::Struct(
                v@.map_values(|e: (String, NodeId)| (e.0@, e.1)),
            ),
            NodeChildren::Vec(v) => ChildrenView::Vec(v@),
        }
    }
}

impl View for PropertyNode {
    type V = NodeView;

    closed spec fn view(&self) -> NodeView {
        NodeView {
            value: self.value,
            children: self.children@,
            parent: self.parent,
            name: self.name@,
        }
    }
}

impl View for PropertyTree {
    type V = Seq<NodeView>;

    closed spec fn view(&self) -> Seq<NodeView> {
        self.nodes@.map_values(|n: PropertyNode| n@)
    }
}

// ---------------------------------------------------------------------------
// The model
// ---------------------------------------------------------------------------

/// The place of the first entry named `key`, if any.
pub open spec fn struct_index(es: Seq<(Seq<char>, NodeId)>, key: Seq<char>) -> Option<int>
    decreases es.len(),
{
    if es.len() == 0 {
        None
    } else if es.last().0 == key && struct_index(es.drop_last(), key) is None {
        Some(es.len() - 1)
    } else {
        struct_index(es.drop_last(), key)
    }
}

/// The node stored under `key` in a structure's fields.
pub open spec fn struct_get(es: Seq<(Seq<char>, NodeId)>, key: Seq<char>) -> Option<NodeId> {
    match struct_index(es, key) {
        Some(i) => Some(es[i].1),
        None => None,
    }
}

/// The fields after `key` is set to `id` (a map's insert).
pub open spec fn struct_insert(es: Seq<(Seq<char>, NodeId)>, key: Seq<char>, id: NodeId) -> Seq<
    (Seq<char>, NodeId),
> {
    match struct_index(es, key) {
        Some(i) => es.update(i, (key, id)),
        None => es.push((key, id)),
    }
}

/// The fields after `key` is removed (a map's remove).
pub open spec fn struct_remove(es: Seq<(Seq<char>, NodeId)>, key: Seq<char>) -> Seq<
    (Seq<char>, NodeId),
> {
    match struct_index(es, key) {
        Some(i) => es.remove(i),
        None => es,
    }
}

/// No two fields have the same name.
pub open spec fn keys_unique(es: Seq<(Seq<char>, NodeId)>) -> bool {
    forall|i: int, j: int| 0 <= i < j < es.len() ==> #[trigger] es[i].0 != #[trigger] es[j].0
}

/// The node ids that a children value names.
pub open spec fn children_ids(c: ChildrenView) -> Seq<NodeId> {
    match c {
        ChildrenView::Empty => seq![],
        ChildrenView::Struct(es) => es.map_values(|e: (Seq<char>, NodeId)| e.1),
        ChildrenView::Vec(ids) => ids,
    }
}

pub open spec fn children_wf(c: ChildrenView, n: nat) -> bool {
    &&& forall|i: int| 0 <= i < children_ids(c).len() ==> #[trigger] children_ids(c)[i] < n
    &&& (c matches ChildrenView::Struct(es) ==> keys_unique(es))
}

/// Every id that the tree holds names one of its nodes, and no structure
/// has two fields with one name.
pub open spec fn tree_wf(nodes: Seq<NodeView>) -> bool {
    forall|i: int|
        0 <= i < nodes.len() ==> {
            &&& children_wf(#[trigger] nodes[i].children, nodes.len())
            &&& (nodes[i].parent matches Some(p) ==> p < nodes.len())
        }
}

/// How many children a children value holds.
pub open spec fn children_count(c: ChildrenView) -> nat {
    match c {
        ChildrenView::Empty => 0,
        ChildrenView::Struct(es) => es.len(),
        ChildrenView::Vec(ids) => ids.len(),
    }
}

/// The place of the first '/' of `s` at or after `i`, or the length of `s`.
pub open spec fn sep_from(s: Seq<char>, i: int) -> int
    decreases s.len() - i,
{
    if i >= s.len() {
        s.len() as int
    } else if i < 0 {
        sep_from(s, 0)
    } else if s[i] == '/' {
        i
    } else {
        sep_from(s, i + 1)
    }
}

pub open spec fn first_sep(s: Seq<char>) -> int {
    sep_from(s, 0)
}

pub proof fn lemma_sep_from(s: Seq<char>, i: int)
    requires
        0 <= i <= s.len(),
    ensures
        i <= sep_from(s, i) <= s.len(),
        sep_from(s, i) < s.len() ==> s[sep_from(s, i)] == '/',
        forall|k: int| i <= k < sep_from(s, i) ==> s[k] != '/',
    decreases s.len() - i,
{
    if i < s.len() && s[i] != '/' {
        lemma_sep_from(s, i + 1);
    }
}

/// What looking up `path` below children `c` gives: `None` where the lookup
/// panics (an item of a vector named by something other than an index, or
/// by an index past its end), else the node found, if any. The path is cut
/// at its first '/': the part before names a child, the part after is looked
/// up below that child.
pub open spec fn children_get(nodes: Seq<NodeView>, c: ChildrenView, path: Seq<char>) -> Option<
    Option<NodeId>,
>
    decreases path.len(),
{
    let k = first_sep(path);
    let head = path.take(k);
    let found: Option<Option<NodeId>> = match c {
        ChildrenView::Vec(ids) => match parse_usize_spec(head) {
            None => None,
            Some(idx) => if idx < ids.len() {
                Some(Some(ids[idx as int]))
            } else {
                None
            },
        },
        ChildrenView::Struct(es) => Some(struct_get(es, head)),
        ChildrenView::Empty => Some(None),
    };
    match found {
        Some(Some(n)) => if k >= path.len() {
            Some(Some(n))
        } else if 0 <= n < nodes.len() {
            proof {
                lemma_sep_from(path, 0);
            }
            children_get(nodes, nodes[n as int].children, path.skip(k + 1))
        } else {
            None
        },
        other => other,
    }
}

/// The path of node `id`: its parent's path, a '/' where that is not empty,
/// then its own name. `None` where `fuel` runs out before the root.
pub open spec fn path_with_fuel(nodes: Seq<NodeView>, id: NodeId, fuel: nat) -> Option<Seq<char>>
    decreases fuel,
{
    if fuel == 0 || id >= nodes.len() {
        None
    } else {
        let n = nodes[id as int];
        let up: Option<Seq<char>> = match n.parent {
            None => Some(seq![]),
            Some(p) => path_with_fuel(nodes, p, (fuel - 1) as nat),
        };
        match up {
            None => None,
            Some(pp) => Some(
                if pp.len() == 0 {
                    n.name
                } else {
                    pp + seq!['/'] + n.name
                },
            ),
        }
    }
}

/// Following parents from `id` reaches a node without parent.
pub open spec fn path_defined(nodes: Seq<NodeView>, id: NodeId) -> bool {
    exists|fuel: nat| #[trigger] path_with_fuel(nodes, id, fuel) is Some
}

/// The path of node `id`, where it is defined.
pub open spec fn node_path(nodes: Seq<NodeView>, id: NodeId) -> Seq<char> {
    path_with_fuel(nodes, id, choose|fuel: nat| #[trigger] path_with_fuel(nodes, id, fuel) is Some)->0
}

pub proof fn lemma_path_fuel_mono(nodes: Seq<NodeView>, id: NodeId, f1: nat, f2: nat)
    requires
        f1 <= f2,
        path_with_fuel(nodes, id, f1) is Some,
    ensures
        path_with_fuel(nodes, id, f2) == path_with_fuel(nodes, id, f1),
    decreases f1,
{
    let n = nodes[id as int];
    if let Some(p) = n.parent {
        lemma_path_fuel_mono(nodes, p, (f1 - 1) as nat, (f2 - 1) as nat);
    }
}

pub proof fn lemma_node_path(nodes: Seq<NodeView>, id: NodeId, fuel: nat)
    requires
        path_with_fuel(nodes, id, fuel) is Some,
    ensures
        path_defined(nodes, id),
        node_path(nodes, id) == path_with_fuel(nodes, id, fuel)->0,
{
    let f = choose|fuel: nat| #[trigger] path_with_fuel(nodes, id, fuel) is Some;
    if f <= fuel {
        lemma_path_fuel_mono(nodes, id, f, fuel);
    } else {
        lemma_path_fuel_mono(nodes, id, fuel, f);
    }
}

/// The children after `field` -> `child` is added: into a vector at the
/// index that `field` reads as, into a structure under `field`; a node
/// without children gets a vector if `field` reads as an index, else a
/// structure. `None` where adding panics (a vector field that is not an
/// index, or an index past the end).
pub open spec fn children_add(c: ChildrenView, field: Seq<char>, child: NodeId) -> Option<
    ChildrenView,
> {
    match c {
        ChildrenView::Vec(ids) => match parse_usize_spec(field) {
            Some(idx) => if idx <= ids.len() {
                Some(ChildrenView::Vec(ids.insert(idx as int, child)))
            } else {
                None
            },
            None => None,
        },
        ChildrenView::Struct(es) => Some(ChildrenView::Struct(struct_insert(es, field, child))),
        ChildrenView::Empty => match parse_usize_spec(field) {
            Some(idx) => Some(ChildrenView::Vec(seq![child])),
            None => Some(ChildrenView::Struct(seq![(field, child)])),
        },
    }
}

/// The children after `field` is removed; `None` where removing panics.
pub open spec fn children_del(c: ChildrenView, field: Seq<char>) -> Option<ChildrenView> {
    match c {
        ChildrenView::Vec(ids) => match parse_usize_spec(field) {
            Some(idx) => if idx < ids.len() {
                Some(ChildrenView::Vec(ids.remove(idx as int)))
            } else {
                None
            },
            None => None,
        },
        ChildrenView::Struct(es) => Some(ChildrenView::Struct(struct_remove(es, field))),
        ChildrenView::Empty => None,
    }
}

/// The place from which the items of a vector are renamed to their place
/// after `field` was added (`added`) or removed; past the end where nothing
/// is renamed.
pub open spec fn rename_start(c: ChildrenView, field: Seq<char>, added: bool) -> int {
    match c {
        ChildrenView::Vec(ids) => match parse_usize_spec(field) {
            Some(idx) => if added {
                (idx + 1) as int
            } else {
                idx as int
            },
            None => (children_count(c) + 1) as int,
        },
        _ => (children_count(c) + 1) as int,
    }
}

/// The last place, at `from` or after, where `j` stands in `ids`.
pub open spec fn last_pos(ids: Seq<NodeId>, j: int, from: int) -> Option<int>
    decreases ids.len(),
{
    if ids.len() == 0 || ids.len() - 1 < from {
        None
    } else if ids.last() == j {
        Some(ids.len() - 1)
    } else {
        last_pos(ids.drop_last(), j, from)
    }
}

/// `after` is `before` with the items of `ids` from place `from` on renamed
/// to their place (where a node stands twice, the later place wins); no
/// other part of any node changes.
pub open spec fn renamed(before: Seq<NodeView>, after: Seq<NodeView>, ids: Seq<NodeId>, from: int) -> bool {
    &&& after.len() == before.len()
    &&& forall|j: int|
        #![trigger after[j]]
        0 <= j < before.len() ==> {
            &&& after[j].value == before[j].value
            &&& after[j].children == before[j].children
            &&& after[j].parent == before[j].parent
            &&& after[j].name == match last_pos(ids, j, from) {
                Some(k) => decimal(k as nat),
                None => before[j].name,
            }
        }
}

// ---------------------------------------------------------------------------
// Helpers
// ---------------------------------------------------------------------------

/// The place of the first '/' of `s`, or its length.
fn find_sep(s: &str) -> (k: usize)
    ensures
        k == first_sep(s@),
{
    let n = s.unicode_len();
    let mut i: usize = 0;
    while i < n
        invariant
            n == s@.len(),
            i <= n,
            forall|k: int| 0 <= k < i ==> s@[k] != '/',
        decreases n - i,
    {
        if s.get_char(i) == '/' {
            proof {
                lemma_first_sep_is(s@, i as int);
            }
            return i;
        }
        i = i + 1;
    }
    proof {
        lemma_first_sep_is(s@, n as int);
    }
    n
}

proof fn lemma_first_sep_is(s: Seq<char>, i: int)
    requires
        0 <= i <= s.len(),
        forall|k: int| 0 <= k < i ==> s[k] != '/',
        i < s.len() ==> s[i] == '/',
    ensures
        first_sep(s) == i,
{
    assert forall|j: int| 0 <= j <= i implies sep_from(s, j) == i by {
        lemma_sep_from_is(s, j, i);
    }
}

proof fn lemma_sep_from_is(s: Seq<char>, j: int, i: int)
    requires
        0 <= j <= i <= s.len(),
        forall|k: int| 0 <= k < i ==> s[k] != '/',
        i < s.len() ==> s[i] == '/',
    ensures
        sep_from(s, j) == i,
    decreases i - j,
{
    if j < i {
        lemma_sep_from_is(s, j + 1, i);
    }
}

fn struct_find(es: &Vec<(String, NodeId)>, key: &str) -> (r: Option<usize>)
    ensures
        match r {
            Some(i) => i < es@.len() && struct_index(
                es@.map_values(|e: (String, NodeId)| (e.0@, e.1)),
                key@,
            ) == Some(i as int),
            None => struct_index(es@.map_values(|e: (String, NodeId)| (e.0@, e.1)), key@) is None,
        },
{
    let ghost v = es@.map_values(|e: (String, NodeId)| (e.0@, e.1));
    let key_s = String::from_str(key);
    let mut i: usize = 0;
    while i < es.len()
        invariant
            i <= es.len(),
            v == es@.map_values(|e: (String, NodeId)| (e.0@, e.1)),
            key_s@ == key@,
            struct_index(v.take(i as int), key@) is None,
        decreases es.len() - i,
    {
        let ghost t = v.take(i + 1);
        proof {
            assert(t.drop_last() =~= v.take(i as int));
            assert(v[i as int] == (es@[i as int].0@, es@[i as int].1));
        }
        if es[i].0 == key_s {
            proof {
                lemma_struct_index_prefix(v, i as int, key@);
            }
            return Some(i);
        }
        i = i + 1;
    }
    assert(v.take(es.len() as int) =~= v);
    None
}

/// The first entry named `key` is found within a prefix that holds it.
proof fn lemma_struct_index_prefix(v: Seq<(Seq<char>, NodeId)>, k: int, key: Seq<char>)
    requires
        0 <= k <= v.len(),
    ensures
        struct_index(v.take(k), key) is Some ==> struct_index(v, key) == struct_index(
            v.take(k),
            key,
        ),
        struct_index(v.take(k), key) is None && k < v.len() && v[k].0 == key ==> struct_index(
            v,
            key,
        ) == Some(k),
        struct_index(v.take(k), key) is None && k == v.len() ==> struct_index(v, key) is None,
    decreases v.len() - k,
{
    if k < v.len() {
        lemma_struct_index_prefix(v, k + 1, key);
        let t = v.take(k + 1);
        assert(t.drop_last() =~= v.take(k));
    } else {
        assert(v.take(k) =~= v);
    }
}

/// A node with no children and no parent yet, as the user interface creates it.
pub fn node_new(name: &str, value: PropertyValueRef) -> (n: PropertyNode)
    ensures
        n@ == (NodeView { value, children: ChildrenView::Empty, parent: None, name: name@ }),
{
    PropertyNode { value, children: NodeChildren::Empty, parent: None, name: String::from_str(name) }
}


/// The path of a node that may stand outside the tree: its parent's path,
/// a '/' where that is not empty, then its own name.
pub open spec fn path_of_node(nodes: Seq<NodeView>, n: NodeView) -> Seq<char> {
    let pp: Seq<char> = match n.parent {
        Some(p) => node_path(nodes, p),
        None => seq![],
    };
    if pp.len() == 0 {
        n.name
    } else {
        pp + seq!['/'] + n.name
    }
}

/// `after` is `before` once `child` was given the parent `parent` and added
/// to its children under `field` (the vector items from the renaming place
/// on renamed to their index).
pub open spec fn child_added(
    before: Seq<NodeView>,
    after: Seq<NodeView>,
    field: Seq<char>,
    parent: NodeId,
    child: NodeId,
) -> bool {
    let old_c = before[parent as int].children;
    let new_c = children_add(old_c, field, child)->0;
    let ids = children_ids(new_c);
    let from = rename_start(old_c, field, true);
    &&& after.len() == before.len()
    &&& forall|j: int|
        #![trigger after[j]]
        0 <= j < before.len() ==> {
            &&& after[j].value == before[j].value
            &&& after[j].children == if j == parent {
                new_c
            } else {
                before[j].children
            }
            &&& after[j].parent == if j == child {
                Some(parent)
            } else {
                before[j].parent
            }
            &&& after[j].name == match last_pos(ids, j, from) {
                Some(k) => decimal(k as nat),
                None => before[j].name,
            }
        }
}

proof fn lemma_struct_index(es: Seq<(Seq<char>, NodeId)>, key: Seq<char>)
    ensures
        match struct_index(es, key) {
            Some(i) => 0 <= i < es.len() && es[i].0 == key && forall|k: int|
                0 <= k < i ==> es[k].0 != key,
            None => forall|k: int| 0 <= k < es.len() ==> es[k].0 != key,
        },
    decreases es.len(),
{
    if es.len() > 0 {
        lemma_struct_index(es.drop_last(), key);
        assert forall|k: int| 0 <= k < es.len() - 1 implies es[k] == es.drop_last()[k] by {}
    }
}

proof fn lemma_struct_insert_unique(es: Seq<(Seq<char>, NodeId)>, key: Seq<char>, id: NodeId)
    requires
        keys_unique(es),
    ensures
        keys_unique(struct_insert(es, key, id)),
        struct_get(struct_insert(es, key, id), key) == Some(id),
{
    lemma_struct_index(es, key);
    let r = struct_insert(es, key, id);
    lemma_struct_index(r, key);
    match struct_index(es, key) {
        Some(i) => {
            assert forall|a: int, b: int| 0 <= a < b < r.len() implies #[trigger] r[a].0
                != #[trigger] r[b].0 by {
                if a != i && b != i {
                    assert(r[a] == es[a] && r[b] == es[b]);
                } else if a == i {
                    assert(es[b].0 != es[i].0);
                } else {
                    assert(es[a].0 != es[i].0);
                }
            }
            if struct_index(r, key) != Some(i) {
                assert(r[i].0 == key);
            }
        },
        None => {
            assert forall|a: int, b: int| 0 <= a < b < r.len() implies #[trigger] r[a].0
                != #[trigger] r[b].0 by {
                if b == es.len() {
                    assert(es[a].0 != key);
                } else {
                    assert(r[a] == es[a] && r[b] == es[b]);
                }
            }
            if struct_index(r, key) != Some(es.len() as int) {
                assert(r[es.len() as int].0 == key);
            }
        },
    }
}

proof fn lemma_struct_remove_unique(es: Seq<(Seq<char>, NodeId)>, key: Seq<char>)
    requires
        keys_unique(es),
    ensures
        keys_unique(struct_remove(es, key)),
        struct_get(struct_remove(es, key), key) is None,
{
    lemma_struct_index(es, key);
    let r = struct_remove(es, key);
    match struct_index(es, key) {
        Some(i) => {
            assert forall|a: int, b: int| 0 <= a < b < r.len() implies #[trigger] r[a].0
                != #[trigger] r[b].0 by {
                let a2 = if a < i { a } else { a + 1 };
                let b2 = if b < i { b } else { b + 1 };
                assert(r[a] == es[a2] && r[b] == es[b2]);
            }
            assert forall|k: int| 0 <= k < r.len() implies r[k].0 != key by {
                let k2 = if k < i { k } else { k + 1 };
                assert(r[k] == es[k2]);
            }
        },
        None => {},
    }
    lemma_struct_index(r, key);
}

proof fn lemma_last_pos_none(ids: Seq<NodeId>, j: int, from: int)
    requires
        from >= ids.len(),
    ensures
        last_pos(ids, j, from) is None,
    decreases ids.len(),
{
}

proof fn lemma_last_pos_step(ids: Seq<NodeId>, k: int, j: int, from: int)
    requires
        0 <= from <= k < ids.len(),
    ensures
        last_pos(ids.take(k + 1), j, from) == if ids[k] == j {
            Some(k)
        } else {
            last_pos(ids.take(k), j, from)
        },
{
    let t = ids.take(k + 1);
    assert(t.drop_last() =~= ids.take(k));
}

proof fn lemma_last_pos_start(ids: Seq<NodeId>, j: int, from: int)
    requires
        0 <= from <= ids.len(),
    ensures
        last_pos(ids.take(from), j, from) is None,
{
    lemma_last_pos_none(ids.take(from), j, from);
}

proof fn lemma_renamed_wf(before: Seq<NodeView>, after: Seq<NodeView>, ids: Seq<NodeId>, from: int)
    requires
        tree_wf(before),
        renamed(before, after, ids, from),
    ensures
        tree_wf(after),
{
    assert forall|i: int| 0 <= i < after.len() implies {
        &&& children_wf(#[trigger] after[i].children, after.len())
        &&& (after[i].parent matches Some(p) ==> p < after.len())
    } by {
        assert(after[i].children == before[i].children);
        assert(children_wf(before[i].children, before.len()));
    }
}

impl PropertyTree {
    /// A tree without nodes.
    pub fn new() -> (t: PropertyTree)
        ensures
            t@ == Seq::<NodeView>::empty(),
            tree_wf(t@),
    {
        let t = PropertyTree { nodes: Vec::new() };
        assert(t@ =~= Seq::<NodeView>::empty());
        t
    }

    pub fn len(&self) -> (n: usize)
        ensures
            n == self@.len(),
    {
        self.nodes.len()
    }

    /// Puts a node into the tree; its id is the place it gets.
    pub fn add(&mut self, node: PropertyNode) -> (id: NodeId)
        requires
            tree_wf(old(self)@),
            children_wf(node@.children, old(self)@.len() + 1),
            node@.parent matches Some(p) ==> p <= old(self)@.len(),
        ensures
            id == old(self)@.len(),
            final(self)@ == old(self)@.push(node@),
            tree_wf(final(self)@),
    {
        let id = self.nodes.len();
        let ghost v = node@;
        self.nodes.push(node);
        assert(self@ =~= old(self)@.push(v));
        proof {
            let after = self@;
            assert forall|i: int| 0 <= i < after.len() implies {
                &&& children_wf(#[trigger] after[i].children, after.len())
                &&& (after[i].parent matches Some(p) ==> p < after.len())
            } by {
                if i < after.len() - 1 {
                    assert(after[i] == old(self)@[i]);
                    assert(children_wf(old(self)@[i].children, old(self)@.len()));
                }
            }
        }
        id
    }

    /// The node at `id`.
    pub fn node(&self, id: NodeId) -> (n: &PropertyNode)
        requires
            id < self@.len(),
        ensures
            n@ == self@[id as int],
    {
        &self.nodes[id]
    }

    /// A node that stands in a place for a moment: value 0, no children,
    /// no parent, an empty name.
    fn dummy() -> (n: PropertyNode)
        ensures
            n@ == (NodeView {
                value: 0,
                children: ChildrenView::Empty,
                parent: None,
                name: Seq::<char>::empty(),
            }),
    {
        PropertyNode { value: 0, children: NodeChildren::Empty, parent: None, name: String::new() }
    }

    fn set_name(&mut self, id: NodeId, name: String)
        requires
            id < old(self)@.len(),
        ensures
            final(self)@ == old(self)@.update(
                id as int,
                NodeView { name: name@, ..old(self)@[id as int] },
            ),
    {
        let mut n = Self::dummy();
        self.nodes.set_and_swap(id, &mut n);
        n.name = name;
        self.nodes.set_and_swap(id, &mut n);
        assert(self@ =~= old(self)@.update(id as int, NodeView { name: name@, ..old(self)@[id as int] }));
    }

    fn set_parent(&mut self, id: NodeId, parent: Option<NodeId>)
        requires
            id < old(self)@.len(),
        ensures
            final(self)@ == old(self)@.update(
                id as int,
                NodeView { parent: parent, ..old(self)@[id as int] },
            ),
    {
        let mut n = Self::dummy();
        self.nodes.set_and_swap(id, &mut n);
        n.parent = parent;
        self.nodes.set_and_swap(id, &mut n);
        assert(self@ =~= old(self)@.update(id as int, NodeView { parent: parent, ..old(self)@[id as int] }));
    }

    fn swap_children(&mut self, id: NodeId, c: &mut NodeChildren)
        requires
            id < old(self)@.len(),
        ensures
            final(self)@ == old(self)@.update(
                id as int,
                NodeView { children: old(c)@, ..old(self)@[id as int] },
            ),
            final(c)@ == old(self)@[id as int].children,
    {
        let mut n = Self::dummy();
        self.nodes.set_and_swap(id, &mut n);
        std::mem::swap(&mut n.children, c);
        self.nodes.set_and_swap(id, &mut n);
        assert(self@ =~= old(self)@.update(id as int, NodeView { children: old(c)@, ..old(self)@[id as int] }));
    }

    /// Names the items of `ids` from place `from` on by their place.
    fn rename_items(&mut self, ids: &Vec<NodeId>, from: usize)
        requires
            forall|k: int| 0 <= k < ids@.len() ==> #[trigger] ids@[k] < old(self)@.len(),
        ensures
            renamed(old(self)@, final(self)@, ids@, from as int),
    {
        if from >= ids.len() {
            assert forall|j: int| 0 <= j < old(self)@.len() implies #[trigger] last_pos(ids@, j, from as int) is None by {
                lemma_last_pos_none(ids@, j, from as int);
            }
            return;
        }
        let ghost before = self@;
        let mut k: usize = from;
        proof {
            assert forall|j: int| 0 <= j < before.len() implies #[trigger] last_pos(ids@.take(from as int), j, from as int) is None by {
                lemma_last_pos_start(ids@, j, from as int);
            }
        }
        while k < ids.len()
            invariant
                from <= k <= ids.len(),
                before == old(self)@,
                forall|i: int| 0 <= i < ids@.len() ==> #[trigger] ids@[i] < before.len(),
                renamed(before, self@, ids@.take(k as int), from as int),
            decreases ids.len() - k,
        {
            let name = index_to_string(k);
            let ghost mid = self@;
            self.set_name(ids[k], name);
            proof {
                assert forall|j: int| 0 <= j < before.len() implies #[trigger] last_pos(ids@.take(k + 1), j, from as int)
                    == if ids@[k as int] == j { Some(k as int) } else { last_pos(ids@.take(k as int), j, from as int) } by {
                    lemma_last_pos_step(ids@, k as int, j, from as int);
                }
            }
            k = k + 1;
        }
        assert(ids@.take(ids.len() as int) =~= ids@);
    }
}

impl NodeChildren {
    /// How many children there are.
    pub fn get_count(&self) -> (n: usize)
        ensures
            n == children_count(self@),
    {
        match self {
            NodeChildren::Empty => 0,
            NodeChildren::Struct(es) => es.len(),
            NodeChildren::Vec(ids) => ids.len(),
        }
    }

    /// Looks up `path` below these children: the part of `path` before its
    /// first '/' names a child (by index in a vector, by field in a
    /// structure), the rest is looked up below that child.
    pub fn get_node(&self, tree: &PropertyTree, path: &str) -> (r: Option<NodeId>)
        requires
            tree_wf(tree@),
            children_wf(self@, tree@.len()),
            children_get(tree@, self@, path@) is Some,
        ensures
            r == children_get(tree@, self@, path@)->0,
        decreases path@.len(),
    {
        let n = path.unicode_len();
        let k = find_sep(path);
        proof {
            lemma_sep_from(path@, 0);
        }
        let head = path.substring_char(0, k);
        assert(head@ =~= path@.take(k as int));
        let found: Option<NodeId> = match self {
            NodeChildren::Vec(ids) => {
                let idx = parse_usize(head);
                match idx {
                    Some(i) => {
                        proof {
                            assert(children_ids(self@)[i as int] == ids@[i as int]);
                        }
                        Some(ids[i])
                    },
                    None => None,
                }
            },
            NodeChildren::Struct(es) => {
                match struct_find(es, head) {
                    Some(i) => {
                        proof {
                            let v = es@.map_values(|e: (String, NodeId)| (e.0@, e.1));
                            assert(v[i as int].1 == es@[i as int].1);
                            assert(children_ids(self@)[i as int] == es@[i as int].1);
                        }
                        Some(es[i].1)
                    },
                    None => None,
                }
            },
            NodeChildren::Empty => None,
        };
        match found {
            Some(node) => {
                if k >= n {
                    Some(node)
                } else {
                    let rest = path.substring_char(k + 1, n);
                    assert(rest@ =~= path@.skip(k + 1));
                    proof {
                        assert(tree@[node as int] == tree.nodes@[node as int]@);
                        assert(children_wf(tree@[node as int].children, tree@.len()));
                    }
                    tree.nodes[node].children.get_node(tree, rest)
                }
            },
            None => None,
        }
    }

    /// Adds node `node` under `field`: into a vector at the index that
    /// `field` reads as (the items after it renamed to their index), into a
    /// structure under `field`; children that were none become a vector if
    /// `field` reads as an index, else a structure.
    pub fn add_node(&mut self, tree: &mut PropertyTree, field: &str, node: NodeId)
        requires
            tree_wf(old(tree)@),
            children_wf(old(self)@, old(tree)@.len()),
            node < old(tree)@.len(),
            children_add(old(self)@, field@, node) is Some,
        ensures
            Some(final(self)@) == children_add(old(self)@, field@, node),
            children_wf(final(self)@, old(tree)@.len()),
            renamed(
                old(tree)@,
                final(tree)@,
                children_ids(final(self)@),
                rename_start(old(self)@, field@, true),
            ),
            tree_wf(final(tree)@),
    {
        let ghost old_c = self@;
        let ghost len = tree@.len();
        match self {
            NodeChildren::Vec(ids) => {
                let idx = parse_usize(field).unwrap();
                ids.insert(idx, node);
                assert(idx < ids.len());
                proof {
                    assert forall|k: int| 0 <= k < ids@.len() implies #[trigger] ids@[k] < len by {
                        if k < idx {
                            assert(ids@[k] == children_ids(old_c)[k]);
                        } else if k > idx {
                            assert(ids@[k] == children_ids(old_c)[k - 1]);
                        }
                    }
                }
                tree.rename_items(ids, idx + 1);
            },
            NodeChildren::Struct(es) => {
                let ghost before = es@.map_values(|e: (String, NodeId)| (e.0@, e.1));
                let found = struct_find(es, field);
                match found {
                    Some(i) => {
                        es.set(i, (String::from_str(field), node));
                    },
                    None => {
                        es.push((String::from_str(field), node));
                    },
                }
                proof {
                    let after = es@.map_values(|e: (String, NodeId)| (e.0@, e.1));
                    assert(after =~= struct_insert(before, field@, node));
                    lemma_struct_insert_unique(before, field@, node);
                    let ids = children_ids(ChildrenView::Struct(after));
                    assert forall|k: int| 0 <= k < ids.len() implies #[trigger] ids[k] < len by {
                        match found {
                            Some(i) => {
                                if k != i {
                                    assert(ids[k] == children_ids(old_c)[k]);
                                }
                            },
                            None => {
                                if k < before.len() {
                                    assert(ids[k] == children_ids(old_c)[k]);
                                }
                            },
                        }
                    }
                    assert forall|j: int| 0 <= j < len implies #[trigger] last_pos(ids, j, (before.len() + 1) as int) is None by {
                        lemma_last_pos_none(ids, j, (before.len() + 1) as int);
                    }
                    assert(tree@ =~= old(tree)@);
                }
            },
            NodeChildren::Empty => {
                let idx = parse_usize(field);
                match idx {
                    Some(_) => {
                        let mut v: Vec<NodeId> = Vec::new();
                        v.push(node);
                        *self = NodeChildren::Vec(v);
                    },
                    None => {
                        let mut v: Vec<(String, NodeId)> = Vec::new();
                        v.push((String::from_str(field), node));
                        *self = NodeChildren::Struct(v);
                        proof {
                            assert(v@.map_values(|e: (String, NodeId)| (e.0@, e.1)) =~= seq![(field@, node)]);
                        }
                    },
                }
                proof {
                    assert forall|j: int| 0 <= j < len implies #[trigger] last_pos(children_ids(self@), j, 1) is None by {
                        lemma_last_pos_none(children_ids(self@), j, 1);
                    }
                    assert(tree@ =~= old(tree)@);
                }
            },
        }
        proof {
            lemma_renamed_wf(old(tree)@, tree@, children_ids(self@), rename_start(old_c, field@, true));
        }
    }

    /// Removes the child under `field`: from a vector at the index that
    /// `field` reads as (the items from there on renamed to their index),
    /// from a structure under `field`.
    pub fn del_node(&mut self, tree: &mut PropertyTree, field: &str)
        requires
            tree_wf(old(tree)@),
            children_wf(old(self)@, old(tree)@.len()),
            children_del(old(self)@, field@) is Some,
        ensures
            Some(final(self)@) == children_del(old(self)@, field@),
            children_wf(final(self)@, old(tree)@.len()),
            renamed(
                old(tree)@,
                final(tree)@,
                children_ids(final(self)@),
                rename_start(old(self)@, field@, false),
            ),
            tree_wf(final(tree)@),
    {
        let ghost old_c = self@;
        let ghost len = tree@.len();
        match self {
            NodeChildren::Vec(ids) => {
                let idx = parse_usize(field).unwrap();
                ids.remove(idx);
                proof {
                    assert forall|k: int| 0 <= k < ids@.len() implies #[trigger] ids@[k] < len by {
                        if k < idx {
                            assert(ids@[k] == children_ids(old_c)[k]);
                        } else {
                            assert(ids@[k] == children_ids(old_c)[k + 1]);
                        }
                    }
                }
                tree.rename_items(ids, idx);
            },
            NodeChildren::Struct(es) => {
                let ghost before = es@.map_values(|e: (String, NodeId)| (e.0@, e.1));
                let found = struct_find(es, field);
                match found {
                    Some(i) => {
                        es.remove(i);
                    },
                    None => {},
                }
                proof {
                    let after = es@.map_values(|e: (String, NodeId)| (e.0@, e.1));
                    assert(after =~= struct_remove(before, field@));
                    lemma_struct_remove_unique(before, field@);
                    let ids = children_ids(ChildrenView::Struct(after));
                    assert forall|k: int| 0 <= k < ids.len() implies #[trigger] ids[k] < len by {
                        match found {
                            Some(i) => {
                                if k < i {
                                    assert(ids[k] == children_ids(old_c)[k]);
                                } else {
                                    assert(ids[k] == children_ids(old_c)[k + 1]);
                                }
                            },
                            None => {
                                assert(ids[k] == children_ids(old_c)[k]);
                            },
                        }
                    }
                    assert forall|j: int| 0 <= j < len implies #[trigger] last_pos(ids, j, (before.len() + 1) as int) is None by {
                        lemma_last_pos_none(ids, j, (before.len() + 1) as int);
                    }
                    assert(tree@ =~= old(tree)@);
                }
            },
            NodeChildren::Empty => {
                assert(false);
            },
        }
        proof {
            lemma_renamed_wf(old(tree)@, tree@, children_ids(self@), rename_start(old_c, field@, false));
        }
    }
}

/// The path of node `id` of the tree, walking up at most `fuel` parents.
fn path_rec(tree: &PropertyTree, id: NodeId, Ghost(fuel): Ghost<nat>) -> (s: String)
    requires
        tree_wf(tree@),
        path_with_fuel(tree@, id, fuel) is Some,
    ensures
        s@ == path_with_fuel(tree@, id, fuel)->0,
    decreases fuel,
{
    let n = tree.node(id);
    proof {
        assert(tree_wf(tree@));
        assert(children_wf(tree@[id as int].children, tree@.len()));
    }
    let mut path = match n.parent {
        Some(p) => path_rec(tree, p, Ghost((fuel - 1) as nat)),
        None => String::new(),
    };
    proof {
        reveal_strlit("/");
    }
    if path.as_str().unicode_len() > 0 {
        path.append("/");
    }
    path.append(n.name.as_str());
    path
}

impl PropertyNode {
    /// A node named `name` for the widget value `value`, without children
    /// and without parent yet.
    pub fn new(name: &str, value: PropertyValueRef) -> (n: PropertyNode)
        ensures
            n@ == (NodeView { value, children: ChildrenView::Empty, parent: None, name: name@ }),
    {
        node_new(name, value)
    }

    pub fn name(&self) -> (s: &String)
        ensures
            s@ == self@.name,
    {
        &self.name
    }

    pub fn parent(&self) -> (p: Option<NodeId>)
        ensures
            p == self@.parent,
    {
        self.parent
    }

    pub fn value(&self) -> (v: PropertyValueRef)
        ensures
            v == self@.value,
    {
        self.value
    }

    /// Looks up `path` below this node's children.
    pub fn get_node(&self, tree: &PropertyTree, path: &str) -> (r: Option<NodeId>)
        requires
            tree_wf(tree@),
            children_wf(self@.children, tree@.len()),
            children_get(tree@, self@.children, path@) is Some,
        ensures
            r == children_get(tree@, self@.children, path@)->0,
    {
        self.children.get_node(tree, path)
    }

    /// Removes the child under `field` from this node's children.
    pub fn del_child(&mut self, tree: &mut PropertyTree, field: &str)
        requires
            tree_wf(old(tree)@),
            children_wf(old(self)@.children, old(tree)@.len()),
            children_del(old(self)@.children, field@) is Some,
        ensures
            Some(final(self)@.children) == children_del(old(self)@.children, field@),
            final(self)@.value == old(self)@.value,
            final(self)@.parent == old(self)@.parent,
            final(self)@.name == old(self)@.name,
            children_wf(final(self)@.children, old(tree)@.len()),
            renamed(
                old(tree)@,
                final(tree)@,
                children_ids(final(self)@.children),
                rename_start(old(self)@.children, field@, false),
            ),
            tree_wf(final(tree)@),
    {
        self.children.del_node(tree, field)
    }

    /// The path of this node: its parent's path, a '/' where that is not
    /// empty, then its name.
    pub fn get_path(&self, tree: &PropertyTree) -> (s: String)
        requires
            tree_wf(tree@),
            self@.parent matches Some(p) ==> p < tree@.len() && path_defined(tree@, p),
        ensures
            s@ == path_of_node(tree@, self@),
    {
        let mut path = match self.parent {
            Some(p) => {
                let ghost f = choose|fuel: nat| #[trigger] path_with_fuel(tree@, p, fuel) is Some;
                path_rec(tree, p, Ghost(f))
            },
            None => String::new(),
        };
        proof {
            reveal_strlit("/");
        }
        if path.as_str().unicode_len() > 0 {
            path.append("/");
        }
        path.append(self.name.as_str());
        path
    }

    /// How many children this node has.
    pub fn get_child_count(&self) -> (n: usize)
        ensures
            n == children_count(self@.children),
    {
        self.children.get_count()
    }
}

/// Makes `child` a child of `parent` under `field`: the child's parent is
/// set, then it is added to the parent's children.
pub fn node_add_child(tree: &mut PropertyTree, field: &str, parent: NodeId, child: NodeId)
    requires
        tree_wf(old(tree)@),
        parent < old(tree)@.len(),
        child < old(tree)@.len(),
        children_add(old(tree)@[parent as int].children, field@, child) is Some,
    ensures
        child_added(old(tree)@, final(tree)@, field@, parent, child),
        tree_wf(final(tree)@),
{
    let ghost t0 = tree@;
    tree.set_parent(child, Some(parent));
    let ghost t1 = tree@;
    let mut c = NodeChildren::Empty;
    tree.swap_children(parent, &mut c);
    let ghost t2 = tree@;
    proof {
        assert(c@ == t0[parent as int].children);
        assert(tree_wf(t0));
        assert(children_wf(t0[parent as int].children, t0.len()));
        assert forall|i: int| 0 <= i < t2.len() implies {
            &&& children_wf(#[trigger] t2[i].children, t2.len())
            &&& (t2[i].parent matches Some(p) ==> p < t2.len())
        } by {
            if i != parent {
                assert(t2[i].children == t0[i].children);
            }
            assert(children_wf(t0[i].children, t0.len()));
        }
    }
    c.add_node(tree, field, child);
    let ghost t3 = tree@;
    tree.swap_children(parent, &mut c);
    proof {
        let new_c = children_add(t0[parent as int].children, field@, child)->0;
        let ids = children_ids(new_c);
        let from = rename_start(t0[parent as int].children, field@, true);
        let after = tree@;
        assert forall|j: int| #![trigger after[j]] 0 <= j < t0.len() implies {
            &&& after[j].value == t0[j].value
            &&& after[j].children == if j == parent {
                new_c
            } else {
                t0[j].children
            }
            &&& after[j].parent == if j == child {
                Some(parent)
            } else {
                t0[j].parent
            }
            &&& after[j].name == match last_pos(ids, j, from) {
                Some(k) => decimal(k as nat),
                None => t0[j].name,
            }
        } by {
            assert(t3[j].value == t2[j].value);
        }
        assert forall|i: int| 0 <= i < after.len() implies {
            &&& children_wf(#[trigger] after[i].children, after.len())
            &&& (after[i].parent matches Some(p) ==> p < after.len())
        } by {
            if i != parent {
                assert(after[i].children == t3[i].children);
            }
        }
    }
}

/// `after` is `before` once the child under `field` was removed from the
/// children of `parent` (the vector items from the renaming place on
/// renamed to their index).
pub open spec fn child_deleted(
    before: Seq<NodeView>,
    after: Seq<NodeView>,
    field: Seq<char>,
    parent: NodeId,
) -> bool {
    let old_c = before[parent as int].children;
    let new_c = children_del(old_c, field)->0;
    let ids = children_ids(new_c);
    let from = rename_start(old_c, field, false);
    &&& after.len() == before.len()
    &&& forall|j: int|
        #![trigger after[j]]
        0 <= j < before.len() ==> {
            &&& after[j].value == before[j].value
            &&& after[j].children == if j == parent {
                new_c
            } else {
                before[j].children
            }
            &&& after[j].parent == before[j].parent
            &&& after[j].name == match last_pos(ids, j, from) {
                Some(k) => decimal(k as nat),
                None => before[j].name,
            }
        }
}

/// Removes the child under `field` from the children of the node `parent`
/// of the tree.
pub fn node_del_child(tree: &mut PropertyTree, field: &str, parent: NodeId)
    requires
        tree_wf(old(tree)@),
        parent < old(tree)@.len(),
        children_del(old(tree)@[parent as int].children, field@) is Some,
    ensures
        child_deleted(old(tree)@, final(tree)@, field@, parent),
        tree_wf(final(tree)@),
{
    let ghost t0 = tree@;
    let mut c = NodeChildren::Empty;
    tree.swap_children(parent, &mut c);
    let ghost t2 = tree@;
    proof {
        assert(c@ == t0[parent as int].children);
        assert(children_wf(t0[parent as int].children, t0.len()));
        assert forall|i: int| 0 <= i < t2.len() implies {
            &&& children_wf(#[trigger] t2[i].children, t2.len())
            &&& (t2[i].parent matches Some(p) ==> p < t2.len())
        } by {
            if i != parent {
                assert(t2[i].children == t0[i].children);
            }
            assert(children_wf(t0[i].children, t0.len()));
        }
    }
    c.del_node(tree, field);
    let ghost t3 = tree@;
    tree.swap_children(parent, &mut c);
    proof {
        let after = tree@;
        assert forall|j: int| #![trigger after[j]] 0 <= j < t0.len() implies after[j].value
            == t0[j].value by {
            assert(t3[j].value == t2[j].value);
        }
        assert forall|i: int| 0 <= i < after.len() implies {
            &&& children_wf(#[trigger] after[i].children, after.len())
            &&& (after[i].parent matches Some(p) ==> p < after.len())
        } by {
            if i != parent {
                assert(after[i].children == t3[i].children);
            }
        }
    }
}

/// What a lookup below well-formed children finds is a node of the tree.
pub proof fn lemma_children_get_in(nodes: Seq<NodeView>, c: ChildrenView, path: Seq<char>)
    requires
        tree_wf(nodes),
        children_wf(c, nodes.len()),
    ensures
        children_get(nodes, c, path) matches Some(Some(n)) ==> n < nodes.len(),
    decreases path.len(),
{
    let k = first_sep(path);
    lemma_sep_from(path, 0);
    let head = path.take(k);
    match c {
        ChildrenView::Vec(ids) => {
            if let Some(idx) = parse_usize_spec(head) {
                if idx < ids.len() {
                    assert(children_ids(c)[idx as int] == ids[idx as int]);
                }
            }
        },
        ChildrenView::Struct(es) => {
            lemma_struct_index(es, head);
            if let Some(i) = struct_index(es, head) {
                assert(children_ids(c)[i] == es[i].1);
            }
        },
        ChildrenView::Empty => {},
    }
    if k < path.len() {
        let found: Option<Option<NodeId>> = match c {
            ChildrenView::Vec(ids) => match parse_usize_spec(head) {
                None => None,
                Some(idx) => if idx < ids.len() {
                    Some(Some(ids[idx as int]))
                } else {
                    None
                },
            },
            ChildrenView::Struct(es) => Some(struct_get(es, head)),
            ChildrenView::Empty => Some(None),
        };
        if let Some(Some(n)) = found {
            if n < nodes.len() {
                assert(children_wf(nodes[n as int].children, nodes.len()));
                lemma_children_get_in(nodes, nodes[n as int].children, path.skip(k + 1));
            }
        }
    }
}

/// A field without '/' reads as itself up to its end.
proof fn lemma_no_sep(field: Seq<char>)
    requires
        !field.contains('/'),
    ensures
        first_sep(field) == field.len(),
        field.take(field.len() as int) == field,
{
    lemma_first_sep_is(field, field.len() as int);
    assert(field.take(field.len() as int) =~= field);
}

/// Looking a child up by the field it was just added under finds it. (A
/// node that had no children and is given a vector by an index holds the
/// child at index 0, so there the index must be 0.)
pub proof fn law_get_after_add(nodes: Seq<NodeView>, c: ChildrenView, field: Seq<char>, child: NodeId)
    requires
        c matches ChildrenView::Struct(es) ==> keys_unique(es),
        !field.contains('/'),
        children_add(c, field, child) is Some,
        c is Empty && parse_usize_spec(field) is Some ==> parse_usize_spec(field) == Some(0nat),
    ensures
        children_get(nodes, children_add(c, field, child)->0, field) == Some(Some(child)),
{
    lemma_no_sep(field);
    match c {
        ChildrenView::Struct(es) => {
            lemma_struct_insert_unique(es, field, child);
            assert(struct_get(struct_insert(es, field, child), field.take(first_sep(field)))
                == Some(child));
        },
        ChildrenView::Vec(ids) => {
            let idx = parse_usize_spec(field)->0;
            assert(parse_usize_spec(field.take(first_sep(field))) == Some(idx));
            assert(ids.insert(idx as int, child)[idx as int] == child);
        },
        ChildrenView::Empty => {
            let one = seq![(field, child)];
            assert(one.drop_last() =~= Seq::<(Seq<char>, NodeId)>::empty());
            assert(one.last() == (field, child));
            assert(struct_index(one.drop_last(), field) is None);
            assert(struct_index(one, field) == Some(0int));
            assert(seq![child][0] == child);
        },
    }
}

/// Adding a child adds one to the count, but where a structure already had
/// a field of that name, which is replaced.
pub proof fn law_count_after_add(c: ChildrenView, field: Seq<char>, child: NodeId)
    requires
        children_add(c, field, child) is Some,
    ensures
        children_count(children_add(c, field, child)->0) == children_count(c) + match c {
            ChildrenView::Struct(es) => if struct_get(es, field) is Some {
                0int
            } else {
                1int
            },
            _ => 1int,
        },
{
    if let ChildrenView::Struct(es) = c {
        lemma_struct_index(es, field);
    }
}

/// After a field of a structure is removed, looking it up finds nothing.
pub proof fn law_get_after_del(nodes: Seq<NodeView>, es: Seq<(Seq<char>, NodeId)>, field: Seq<char>)
    requires
        keys_unique(es),
        !field.contains('/'),
    ensures
        children_get(nodes, children_del(ChildrenView::Struct(es), field)->0, field) == Some(
            None::<NodeId>,
        ),
{
    lemma_no_sep(field);
    lemma_struct_remove_unique(es, field);
    let es2 = struct_remove(es, field);
    assert(struct_get(es2, field.take(first_sep(field))) is None);
}

/// Removing a child takes one from the count, but where a structure has no
/// field of that name, which changes nothing.
pub proof fn law_count_after_del(c: ChildrenView, field: Seq<char>)
    requires
        children_del(c, field) is Some,
    ensures
        children_count(children_del(c, field)->0) == children_count(c) - match c {
            ChildrenView::Struct(es) => if struct_get(es, field) is Some {
                1int
            } else {
                0int
            },
            _ => 1int,
        },
{
    if let ChildrenView::Struct(es) = c {
        lemma_struct_index(es, field);
    }
}

} // verus!
