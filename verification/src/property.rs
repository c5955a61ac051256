use vstd::prelude::*;
use vstd::string::*;

use crate::number::{parse_usize, parse_usize_spec};
use crate::scene::{Object, ObjectId};
use crate::util::{law_split_join, make_vec_from_str, seq_join, seq_split, strings_view};

verus! {

/// The components of a property path of an object: the path cut at each
/// '/', without a leading "object" component.
pub open spec fn object_path(path: Seq<char>) -> Seq<Seq<char>> {
    let v = seq_split(path, '/');
    if v.len() > 0 && v[0] == "object"@ {
        v.drop_first()
    } else {
        v
    }
}

/// What setting the text property at a path does to an object.
pub enum TextEffect {
    /// The object's name is set.
    Name,
    /// The script name at this index of the object's scripts is set.
    Script(nat),
    /// Nothing of the object changes.
    Unchanged,
    /// The path names a script index that the object does not have.
    Panic,
}

/// What setting a text value at `path` does to an object with `scripts`
/// script names: "name" names the object's name; "comp_lua/<i>" names its
/// i-th script (an index it lacks, or an i that is no index, panics, also
/// with more components after it, which then change nothing); any other
/// path changes nothing of what a text can set.
pub open spec fn text_effect(path: Seq<char>, scripts: nat) -> TextEffect {
    let v = object_path(path);
    if v.len() == 1 && v[0] == "name"@ {
        TextEffect::Name
    } else if v.len() >= 2 && v[0] == "comp_lua"@ {
        match parse_usize_spec(v[1]) {
            None => TextEffect::Panic,
            Some(i) => if i >= scripts {
                TextEffect::Panic
            } else if v.len() == 2 {
                TextEffect::Script(i)
            } else {
                TextEffect::Unchanged
            },
        }
    } else {
        TextEffect::Unchanged
    }
}

/// `after` is `before` with the text property at `path` set to `value`.
pub open spec fn text_set(before: Object, after: Object, path: Seq<char>, value: Seq<char>) -> bool {
    &&& after.id == before.id
    &&& after.parent == before.parent
    &&& after.mesh_render == before.mesh_render
    &&& after.children@ == before.children@
    &&& strings_view(after.comp_string@) == strings_view(before.comp_string@)
    &&& match text_effect(path, before.comp_lua@.len()) {
        TextEffect::Name => after.name@ == value && strings_view(after.comp_lua@) == strings_view(
            before.comp_lua@,
        ),
        TextEffect::Script(i) => after.name@ == before.name@ && strings_view(after.comp_lua@)
            == strings_view(before.comp_lua@).update(i as int, value),
        _ => after.name@ == before.name@ && strings_view(after.comp_lua@) == strings_view(
            before.comp_lua@,
        ),
    }
}

fn is_text(s: &String, lit: &str) -> (r: bool)
    ensures
        r == (s@ == lit@),
{
    let t = String::from_str(lit);
    *s == t
}

impl Object {
    /// Sets the text property at `name` to `value` (see `text_effect`).
    pub fn test_set_property_hier(&mut self, name: &str, value: &String)
        requires
            text_effect(name@, old(self).comp_lua@.len()) != TextEffect::Panic,
        ensures
            text_set(*old(self), *final(self), name@, value@),
    {
        let v = make_vec_from_str(name);
        proof {
            reveal_strlit("object");
            reveal_strlit("name");
            reveal_strlit("comp_lua");
            crate::util::lemma_split_nonempty(name@, '/');
        }
        let start: usize = if is_text(&v[0], "object") {
            1
        } else {
            0
        };
        let ghost w = object_path(name@);
        assert(w =~= strings_view(v@).skip(start as int));
        let count = v.len() - start;
        if count == 1 && is_text(&v[start], "name") {
            self.name = value.clone();
        } else if count >= 2 && is_text(&v[start], "comp_lua") {
            // the components after "comp_lua", joined and cut again, are these same components
            proof {
                let rest = w.drop_first();
                assert forall|i: int| 0 <= i < rest.len() implies !(#[trigger] rest[i]).contains('/') by {
                    crate::util::lemma_split_pieces_no_sep(name@, '/', i + 1 + start);
                    assert(rest[i] == seq_split(name@, '/')[i + 1 + start]);
                }
                law_split_join(rest, '/');
            }
            let index = parse_usize(v[start + 1].as_str()).unwrap();
            if count == 2 {
                let mut s = value.clone();
                let ghost before = self.comp_lua@;
                self.comp_lua.set_and_swap(index, &mut s);
                proof {
                    assert(strings_view(self.comp_lua@) =~= strings_view(before).update(
                        index as int,
                        value@,
                    ));
                }
            }
        }
    }

    /// The text at the property path `name`, where the path names a text:
    /// the object's name, or one of its scripts (see `text_value`).
    pub fn get_property_hier(&self, name: &str) -> (r: Option<String>)
        requires
            text_effect(name@, self.comp_lua@.len()) != TextEffect::Panic,
        ensures
            match r {
                Some(s) => text_value(*self, name@) == Some(s@),
                None => text_value(*self, name@) is None,
            },
    {
        let v = make_vec_from_str(name);
        proof {
            reveal_strlit("object");
            reveal_strlit("name");
            reveal_strlit("comp_lua");
            crate::util::lemma_split_nonempty(name@, '/');
        }
        let start: usize = if is_text(&v[0], "object") {
            1
        } else {
            0
        };
        let ghost w = object_path(name@);
        assert(w =~= strings_view(v@).skip(start as int));
        let count = v.len() - start;
        if count == 1 && is_text(&v[start], "name") {
            Some(self.name.clone())
        } else if count == 2 && is_text(&v[start], "comp_lua") {
            let index = parse_usize(v[start + 1].as_str()).unwrap();
            proof {
                assert(strings_view(self.comp_lua@)[index as int] == self.comp_lua@[index as int]@);
            }
            Some(self.comp_lua[index].clone())
        } else {
            None
        }
    }
}

/// What adding or removing the item at an index of the vector at a path
/// does to an object with `scripts` script names: the vector of scripts
/// ("comp_lua", the rest of the path naming no deeper property) gets the
/// item; a deeper path changes nothing; an index past the vector panics.
pub enum ItemEffect {
    Scripts,
    Unchanged,
    Panic,
}

pub open spec fn item_effect(path: Seq<char>, index: nat, scripts: nat, adding: bool) -> ItemEffect {
    let v = object_path(path);
    if v.len() >= 1 && v[0] == "comp_lua"@ {
        if v.len() <= 2 {
            if (adding && index > scripts) || (!adding && index >= scripts) {
                ItemEffect::Panic
            } else {
                ItemEffect::Scripts
            }
        } else if index >= scripts {
            ItemEffect::Panic
        } else {
            ItemEffect::Unchanged
        }
    } else {
        ItemEffect::Unchanged
    }
}

/// `after` is `before` with only its scripts possibly changed.
pub open spec fn only_scripts_changed(before: Object, after: Object) -> bool {
    &&& after.name == before.name
    &&& after.id == before.id
    &&& after.parent == before.parent
    &&& after.mesh_render == before.mesh_render
    &&& after.children == before.children
    &&& after.comp_string == before.comp_string
}

impl Object {
    /// Where `name` is the path of a vector of texts (the scripts), puts
    /// `value` as its item at `index`, the items from there on moving one
    /// place up (see `item_effect`).
    pub fn add_item(&mut self, name: &str, index: usize, value: &String)
        requires
            item_effect(name@, index as nat, old(self).comp_lua@.len(), true) != ItemEffect::Panic,
        ensures
            only_scripts_changed(*old(self), *final(self)),
            strings_view(final(self).comp_lua@) == match item_effect(
                name@,
                index as nat,
                old(self).comp_lua@.len(),
                true,
            ) {
                ItemEffect::Scripts => strings_view(old(self).comp_lua@).insert(index as int, value@),
                _ => strings_view(old(self).comp_lua@),
            },
    {
        if self.names_scripts(name) {
            let ghost before = self.comp_lua@;
            self.comp_lua.insert(index, value.clone());
            assert(strings_view(self.comp_lua@) =~= strings_view(before).insert(index as int, value@));
        }
    }

    /// Where `name` is the path of a vector of texts (the scripts), takes
    /// out its item at `index`, the items after it moving one place down
    /// (see `item_effect`).
    pub fn del_item(&mut self, name: &str, index: usize)
        requires
            item_effect(name@, index as nat, old(self).comp_lua@.len(), false) != ItemEffect::Panic,
        ensures
            only_scripts_changed(*old(self), *final(self)),
            strings_view(final(self).comp_lua@) == match item_effect(
                name@,
                index as nat,
                old(self).comp_lua@.len(),
                false,
            ) {
                ItemEffect::Scripts => strings_view(old(self).comp_lua@).remove(index as int),
                _ => strings_view(old(self).comp_lua@),
            },
    {
        if self.names_scripts(name) {
            let ghost before = self.comp_lua@;
            self.comp_lua.remove(index);
            assert(strings_view(self.comp_lua@) =~= strings_view(before).remove(index as int));
        }
    }

    /// Whether `name` is the path of the vector of scripts itself, or of an
    /// item of it with nothing deeper.
    fn names_scripts(&self, name: &str) -> (r: bool)
        ensures
            r <==> {
                let v = object_path(name@);
                v.len() >= 1 && v[0] == "comp_lua"@ && v.len() <= 2
            },
    {
        let v = make_vec_from_str(name);
        proof {
            reveal_strlit("object");
            reveal_strlit("comp_lua");
            crate::util::lemma_split_nonempty(name@, '/');
        }
        let start: usize = if is_text(&v[0], "object") {
            1
        } else {
            0
        };
        let ghost w = object_path(name@);
        assert(w =~= strings_view(v@).skip(start as int));
        let count = v.len() - start;
        count >= 1 && count <= 2 && is_text(&v[start], "comp_lua")
    }
}

/// The last place of `x` in `ids`.
pub open spec fn last_index(ids: Seq<ObjectId>, x: ObjectId) -> Option<int>
    decreases ids.len(),
{
    if ids.len() == 0 {
        None
    } else if ids.last() == x {
        Some(ids.len() - 1)
    } else {
        last_index(ids.drop_last(), x)
    }
}

pub proof fn lemma_last_index(ids: Seq<ObjectId>, x: ObjectId)
    ensures
        last_index(ids, x) matches Some(i) ==> 0 <= i < ids.len() && ids[i] == x,
    decreases ids.len(),
{
    if ids.len() > 0 && ids.last() != x {
        lemma_last_index(ids.drop_last(), x);
    }
}

/// Setting the text values of the objects of `ids` at `path` panics on none
/// of the objects of `list` or below: `values[i]` goes to the object of
/// `ids[i]` (the last place of an id wins).
pub open spec fn tree_set_ok(list: Seq<Object>, ids: Seq<ObjectId>, path: Seq<char>) -> bool
    decreases list,
{
    if list.len() == 0 {
        true
    } else {
        let last = list.last();
        proof {
            assert(decreases_to!(list => list[list.len() - 1]));
        }
        &&& tree_set_ok(list.drop_last(), ids, path)
        &&& (last_index(ids, last.id) is Some ==> text_effect(path, last.comp_lua@.len())
            != TextEffect::Panic)
        &&& tree_set_ok(last.children@, ids, path)
    }
}

/// `after` is `before` with, in every object of `before` and below whose id
/// `ids` holds, the text property at `path` set to the value of that id.
pub open spec fn tree_updated(
    before: Seq<Object>,
    after: Seq<Object>,
    ids: Seq<ObjectId>,
    values: Seq<Seq<char>>,
    path: Seq<char>,
) -> bool
    decreases before,
{
    &&& before.len() == after.len()
    &&& if before.len() == 0 {
        true
    } else {
        let b = before.last();
        let a = after.last();
        proof {
            assert(decreases_to!(before => before[before.len() - 1]));
        }
        &&& tree_updated(before.drop_last(), after.drop_last(), ids, values, path)
        &&& a.id == b.id
        &&& strings_view(a.comp_string@) == strings_view(b.comp_string@)
        &&& match last_index(ids, b.id) {
            Some(i) => text_set(
                Object { children: a.children, ..b },
                a,
                path,
                values[i],
            ),
            None => a.name@ == b.name@ && a.parent == b.parent && a.mesh_render == b.mesh_render
                && strings_view(a.comp_lua@)
                == strings_view(b.comp_lua@),
        }
        &&& tree_updated(b.children@, a.children@, ids, values, path)
    }
}


fn last_index_in(ids: &Vec<ObjectId>, x: ObjectId) -> (r: Option<usize>)
    ensures
        match r {
            Some(i) => last_index(ids@, x) == Some(i as int),
            None => last_index(ids@, x) is None,
        },
{
    let mut i: usize = ids.len();
    assert(ids@.take(ids.len() as int) =~= ids@);
    while i > 0
        invariant
            i <= ids.len(),
            last_index(ids@, x) == last_index(ids@.take(i as int), x),
        decreases i,
    {
        proof {
            let t = ids@.take(i as int);
            assert(t.drop_last() =~= ids@.take(i - 1));
        }
        if ids[i - 1] == x {
            return Some(i - 1);
        }
        i = i - 1;
    }
    assert(ids@.take(0) =~= Seq::<ObjectId>::empty());
    None
}

/// Setting texts in a tree keeps, for every object, its id and how many
/// scripts it has, so any path and ids that could be set before can be set
/// after.
pub proof fn lemma_tree_updated_set_ok(
    before: Seq<Object>,
    after: Seq<Object>,
    ids: Seq<ObjectId>,
    values: Seq<Seq<char>>,
    path: Seq<char>,
    ids2: Seq<ObjectId>,
    path2: Seq<char>,
)
    requires
        tree_updated(before, after, ids, values, path),
        tree_set_ok(before, ids2, path2),
    ensures
        tree_set_ok(after, ids2, path2),
    decreases before,
{
    if before.len() > 0 {
        let b = before.last();
        let a = after.last();
        assert(decreases_to!(before => before[before.len() - 1]));
        lemma_tree_updated_set_ok(before.drop_last(), after.drop_last(), ids, values, path, ids2, path2);
        assert(a.comp_lua@.len() == strings_view(a.comp_lua@).len());
        assert(b.comp_lua@.len() == strings_view(b.comp_lua@).len());
        assert(a.comp_lua@.len() == b.comp_lua@.len());
        lemma_tree_updated_set_ok(b.children@, a.children@, ids, values, path, ids2, path2);
    }
}

proof fn lemma_tree_set_ok_at(list: Seq<Object>, ids: Seq<ObjectId>, path: Seq<char>, k: int)
    requires
        tree_set_ok(list, ids, path),
        0 <= k < list.len(),
    ensures
        last_index(ids, list[k].id) is Some ==> text_effect(path, list[k].comp_lua@.len())
            != TextEffect::Panic,
        tree_set_ok(list[k].children@, ids, path),
    decreases list.len(),
{
    if k < list.len() - 1 {
        lemma_tree_set_ok_at(list.drop_last(), ids, path, k);
        assert(list.drop_last()[k] == list[k]);
    }
}

/// Sets, in every object of `list` and below whose id `ids` holds, the text
/// property at `path` to the value of that id (`values[i]` for `ids[i]`,
/// the last place of an id winning).
pub fn set_in(list: &mut Vec<Object>, ids: &Vec<ObjectId>, values: &Vec<String>, path: &str)
    requires
        values@.len() == ids@.len(),
        tree_set_ok(old(list)@, ids@, path@),
    ensures
        tree_updated(old(list)@, final(list)@, ids@, strings_view(values@), path@),
    decreases old(list)@,
{
    let ghost before = list@;
    let mut i: usize = 0;
    while i < list.len()
        invariant
            list@.len() == before.len(),
            i <= list@.len(),
            values@.len() == ids@.len(),
            tree_set_ok(before, ids@, path@),
            tree_updated(before.take(i as int), list@.take(i as int), ids@, strings_view(values@), path@),
            list@.skip(i as int) == before.skip(i as int),
            before == old(list)@,
        decreases list@.len() - i,
    {
        let mut o = Object {
            name: String::new(),
            id: 0,
            mesh_render: None,
            children: Vec::new(),
            parent: None,
            comp_string: Vec::new(),
            comp_lua: Vec::new(),
        };
        let ghost cur = list@;
        list.set_and_swap(i, &mut o);
        proof {
            assert(cur[i as int] == before.skip(i as int)[0]);
            assert(o == before[i as int]);
            lemma_tree_set_ok_at(before, ids@, path@, i as int);
            assert(decreases_to!(before => before[i as int]));
        }
        let b = o.id;
        let mut ch: Vec<Object> = Vec::new();
        std::mem::swap(&mut ch, &mut o.children);
        let ghost ch0 = ch@;
        set_in(&mut ch, ids, values, path);
        let ghost mid = o;
        o.children = ch;
        match last_index_in(ids, o.id) {
            Some(k) => {
                proof {
                    lemma_last_index(ids@, o.id);
                }
                o.test_set_property_hier(path, &values[k]);
            },
            None => {},
        }
        let ghost after_o = o;
        list.set_and_swap(i, &mut o);
        proof {
            let t_b = before.take(i + 1);
            let t_a = list@.take(i + 1);
            assert(t_b.drop_last() =~= before.take(i as int));
            assert(t_a.drop_last() =~= cur.take(i as int));
            assert(t_a.last() == after_o);
            assert(t_b.last() == before[i as int]);
            assert(list@ =~= cur.update(i as int, after_o));
            assert forall|j: int| 0 <= j < list@.len() - (i + 1) implies #[trigger] list@.skip(i + 1)[j]
                == before.skip(i + 1)[j] by {
                assert(list@[i + 1 + j] == cur[i + 1 + j]);
                assert(cur[i + 1 + j] == cur.skip(i as int)[j + 1]);
                assert(before[i + 1 + j] == before.skip(i as int)[j + 1]);
            }
            assert(list@.skip(i + 1) =~= before.skip(i + 1));
        }
        i = i + 1;
    }
    assert(before.take(before.len() as int) =~= before);
    assert(list@.take(list@.len() as int) =~= list@);
}

/// The text at `path` of an object, where `path` names one.
pub open spec fn text_value(o: Object, path: Seq<char>) -> Option<Seq<char>> {
    match text_effect(path, o.comp_lua@.len()) {
        TextEffect::Name => Some(o.name@),
        TextEffect::Script(i) => Some(strings_view(o.comp_lua@)[i as int]),
        _ => None,
    }
}

/// Reading back a text property that was set gives the value set.
pub proof fn law_text_read_after_set(a: Object, b: Object, path: Seq<char>, v: Seq<char>)
    requires
        text_set(a, b, path, v),
        text_value(a, path) is Some,
    ensures
        text_value(b, path) == Some(v),
{
    assert(strings_view(b.comp_lua@).len() == b.comp_lua@.len());
    assert(strings_view(a.comp_lua@).len() == a.comp_lua@.len());
}

/// Setting a text property to a new value, then back to the value it had,
/// leaves the object's texts as they were.
pub proof fn law_text_set_then_restore(
    a: Object,
    b: Object,
    c: Object,
    path: Seq<char>,
    new: Seq<char>,
    old: Seq<char>,
)
    requires
        text_set(a, b, path, new),
        text_set(b, c, path, old),
        text_value(a, path) is Some ==> text_value(a, path) == Some(old),
    ensures
        c.id == a.id,
        c.name@ == a.name@,
        strings_view(c.comp_lua@) == strings_view(a.comp_lua@),
        strings_view(c.comp_string@) == strings_view(a.comp_string@),
{
    assert(strings_view(b.comp_lua@).len() == b.comp_lua@.len());
    assert(strings_view(a.comp_lua@).len() == a.comp_lua@.len());
    assert(strings_view(c.comp_lua@).len() == c.comp_lua@.len());
    match text_effect(path, a.comp_lua@.len()) {
        TextEffect::Script(i) => {
            assert(strings_view(c.comp_lua@) =~= strings_view(a.comp_lua@));
        },
        _ => {},
    }
}

/// Every object of `list` and below whose id `ids` holds has, at `path`,
/// where `path` names a text of it, the value of its id (`values[i]` for
/// `ids[i]`, the last place of an id winning).
pub open spec fn tree_texts_are(
    list: Seq<Object>,
    ids: Seq<ObjectId>,
    path: Seq<char>,
    values: Seq<Seq<char>>,
) -> bool
    decreases list,
{
    if list.len() == 0 {
        true
    } else {
        let last = list.last();
        proof {
            assert(decreases_to!(list => list[list.len() - 1]));
        }
        &&& tree_texts_are(list.drop_last(), ids, path, values)
        &&& (last_index(ids, last.id) matches Some(i) ==> (text_value(last, path) is Some
            ==> text_value(last, path) == Some(values[i])))
        &&& tree_texts_are(last.children@, ids, path, values)
    }
}

/// `a` and `b` hold the same objects in the same places, with the same ids,
/// parents, names, and component and script names.
pub open spec fn tree_texts_same(a: Seq<Object>, b: Seq<Object>) -> bool
    decreases a,
{
    &&& a.len() == b.len()
    &&& if a.len() == 0 {
        true
    } else {
        let x = a.last();
        let y = b.last();
        proof {
            assert(decreases_to!(a => a[a.len() - 1]));
        }
        &&& tree_texts_same(a.drop_last(), b.drop_last())
        &&& y.id == x.id
        &&& y.parent == x.parent
        &&& y.mesh_render == x.mesh_render
        &&& y.name@ == x.name@
        &&& strings_view(y.comp_string@) == strings_view(x.comp_string@)
        &&& strings_view(y.comp_lua@) == strings_view(x.comp_lua@)
        &&& tree_texts_same(x.children@, y.children@)
    }
}

/// Setting the text property at a path of some objects of a tree to new
/// values, then to the values they had, gives the tree back as it was.
pub proof fn law_tree_set_then_restore(
    s1: Seq<Object>,
    s2: Seq<Object>,
    s3: Seq<Object>,
    ids: Seq<ObjectId>,
    path: Seq<char>,
    new_values: Seq<Seq<char>>,
    old_values: Seq<Seq<char>>,
)
    requires
        tree_updated(s1, s2, ids, new_values, path),
        tree_updated(s2, s3, ids, old_values, path),
        tree_texts_are(s1, ids, path, old_values),
    ensures
        tree_texts_same(s1, s3),
    decreases s1,
{
    if s1.len() > 0 {
        let b = s1.last();
        let a2 = s2.last();
        let a3 = s3.last();
        assert(decreases_to!(s1 => s1[s1.len() - 1]));
        law_tree_set_then_restore(
            s1.drop_last(),
            s2.drop_last(),
            s3.drop_last(),
            ids,
            path,
            new_values,
            old_values,
        );
        law_tree_set_then_restore(
            b.children@,
            a2.children@,
            a3.children@,
            ids,
            path,
            new_values,
            old_values,
        );
        match last_index(ids, b.id) {
            Some(i) => {
                let x1 = Object { children: a3.children, ..b };
                let x2 = Object { children: a3.children, ..a2 };
                assert(text_set(x1, x2, path, new_values[i]));
                assert(text_set(x2, a3, path, old_values[i]));
                law_text_set_then_restore(x1, x2, a3, path, new_values[i], old_values[i]);
            },
            None => {},
        }
    }
}

/// Adding an item at an index of a vector of texts of an object, then
/// removing the item at that index, gives the object back as it was.
pub proof fn law_add_then_del_item(
    a: Object,
    b: Object,
    c: Object,
    path: Seq<char>,
    index: nat,
    value: Seq<char>,
)
    requires
        item_effect(path, index, a.comp_lua@.len(), true) != ItemEffect::Panic,
        only_scripts_changed(a, b),
        strings_view(b.comp_lua@) == match item_effect(path, index, a.comp_lua@.len(), true) {
            ItemEffect::Scripts => strings_view(a.comp_lua@).insert(index as int, value),
            _ => strings_view(a.comp_lua@),
        },
        only_scripts_changed(b, c),
        strings_view(c.comp_lua@) == match item_effect(path, index, b.comp_lua@.len(), false) {
            ItemEffect::Scripts => strings_view(b.comp_lua@).remove(index as int),
            _ => strings_view(b.comp_lua@),
        },
    ensures
        item_effect(path, index, b.comp_lua@.len(), false) != ItemEffect::Panic,
        only_scripts_changed(a, c),
        strings_view(c.comp_lua@) == strings_view(a.comp_lua@),
{
    assert(strings_view(a.comp_lua@).len() == a.comp_lua@.len());
    assert(strings_view(b.comp_lua@).len() == b.comp_lua@.len());
    if item_effect(path, index, a.comp_lua@.len(), true) == ItemEffect::Scripts {
        assert(strings_view(a.comp_lua@).insert(index as int, value).remove(index as int)
            =~= strings_view(a.comp_lua@));
    }
}

} // verus!
