use vstd::prelude::*;

use crate::scene::ObjectId;

verus! {

/// The first place of the entry for `k`, if any.
pub open spec fn key_index<V>(es: Seq<(ObjectId, V)>, k: ObjectId) -> Option<int>
    decreases es.len(),
{
    if es.len() == 0 {
        None
    } else {
        match key_index(es.drop_last(), k) {
            Some(i) => Some(i),
            None => if es.last().0 == k {
                Some(es.len() - 1)
            } else {
                None
            },
        }
    }
}

/// No two entries have one key.
pub open spec fn keys_distinct<V>(es: Seq<(ObjectId, V)>) -> bool {
    forall|i: int, j: int| 0 <= i < j < es.len() ==> #[trigger] es[i].0 != #[trigger] es[j].0
}

/// The entries as a map from keys to values.
pub open spec fn key_map<V>(es: Seq<(ObjectId, V)>) -> Map<ObjectId, V> {
    Map::new(|k: ObjectId| key_index(es, k) is Some, |k: ObjectId| es[key_index(es, k)->0].1)
}

pub proof fn lemma_key_index<V>(es: Seq<(ObjectId, V)>, k: ObjectId)
    ensures
        match key_index(es, k) {
            Some(i) => 0 <= i < es.len() && es[i].0 == k,
            None => forall|j: int| 0 <= j < es.len() ==> es[j].0 != k,
        },
    decreases es.len(),
{
    if es.len() > 0 {
        lemma_key_index(es.drop_last(), k);
        assert forall|j: int| 0 <= j < es.len() - 1 implies es[j] == es.drop_last()[j] by {}
    }
}

pub proof fn lemma_key_index_is<V>(es: Seq<(ObjectId, V)>, k: ObjectId, i: int)
    requires
        keys_distinct(es),
        0 <= i < es.len(),
        es[i].0 == k,
    ensures
        key_index(es, k) == Some(i),
{
    lemma_key_index(es, k);
    if let Some(j) = key_index(es, k) {
        if j < i {
            assert(es[j].0 != es[i].0);
        } else if j > i {
            assert(es[i].0 != es[j].0);
        }
    }
}

/// With distinct keys, the map holds `k` exactly where an entry has it,
/// with that entry's value.
pub proof fn lemma_key_map<V>(es: Seq<(ObjectId, V)>, k: ObjectId)
    requires
        keys_distinct(es),
    ensures
        key_map(es).contains_key(k) <==> exists|i: int| 0 <= i < es.len() && es[i].0 == k,
        forall|i: int| 0 <= i < es.len() && es[i].0 == k ==> key_map(es)[k] == es[i].1,
{
    lemma_key_index(es, k);
    assert forall|i: int| 0 <= i < es.len() && es[i].0 == k implies key_map(es)[k] == es[i].1 by {
        lemma_key_index_is(es, k, i);
    }
}

/// The place of the entry for `k`, if any.
pub(crate) fn find_key<V>(es: &Vec<(ObjectId, V)>, k: ObjectId) -> (r: Option<usize>)
    requires
        keys_distinct(es@),
    ensures
        match r {
            Some(i) => i < es@.len() && es@[i as int].0 == k && key_index(es@, k) == Some(i as int),
            None => key_index(es@, k) is None && !key_map(es@).contains_key(k),
        },
{
    let mut i: usize = 0;
    while i < es.len()
        invariant
            i <= es@.len(),
            keys_distinct(es@),
            forall|j: int| 0 <= j < i ==> es@[j].0 != k,
        decreases es.len() - i,
    {
        if es[i].0 == k {
            proof {
                lemma_key_index_is(es@, k, i as int);
            }
            return Some(i);
        }
        i = i + 1;
    }
    proof {
        lemma_key_index(es@, k);
    }
    None
}

/// Sets the value of `k` to `v`.
pub(crate) fn key_set<V>(es: &mut Vec<(ObjectId, V)>, k: ObjectId, v: V)
    requires
        keys_distinct(old(es)@),
    ensures
        keys_distinct(final(es)@),
        key_map(final(es)@) == key_map(old(es)@).insert(k, v),
{
    let ghost before = es@;
    match find_key(es, k) {
        Some(i) => {
            let mut entry = (k, v);
            es.set_and_swap(i, &mut entry);
        },
        None => {
            es.push((k, v));
        },
    }
    proof {
        let after = es@;
        assert forall|a: int, b: int| 0 <= a < b < after.len() implies #[trigger] after[a].0
            != #[trigger] after[b].0 by {
            if a < before.len() && b < before.len() {
                lemma_key_index(before, k);
                if after[a].0 == k && after[a] != before[a] {
                    assert(before[b].0 != k || after[b] == before[b]);
                }
                assert(after[a].0 == before[a].0 && after[b].0 == before[b].0);
            } else {
                lemma_key_index(before, k);
                assert(after[a] == before[a]);
            }
        }
        assert forall|x: ObjectId| #[trigger] key_map(after).contains_key(x) == key_map(
            before,
        ).insert(k, v).contains_key(x) && (key_map(after).contains_key(x) ==> key_map(after)[x]
            == key_map(before).insert(k, v)[x]) by {
            lemma_key_map(before, x);
            lemma_key_map(after, x);
            lemma_key_index(before, x);
            lemma_key_index(after, x);
            if let Some(j) = key_index(after, x) {
                if j < before.len() && x != k {
                    assert(after[j] == before[j]);
                }
            }
            if let Some(j) = key_index(before, x) {
                if x != k {
                    assert(after[j] == before[j]);
                    lemma_key_index_is(after, x, j);
                }
            }
            if x == k {
                match key_index(before, k) {
                    Some(j) => lemma_key_index_is(after, k, j),
                    None => lemma_key_index_is(after, k, before.len() as int),
                }
            }
        }
        assert(key_map(after) =~= key_map(before).insert(k, v));
    }
}

/// Takes out the entry of `k`, giving its value.
pub(crate) fn key_remove<V>(es: &mut Vec<(ObjectId, V)>, k: ObjectId) -> (r: Option<V>)
    requires
        keys_distinct(old(es)@),
    ensures
        keys_distinct(final(es)@),
        key_map(final(es)@) == key_map(old(es)@).remove(k),
        r == (if key_map(old(es)@).contains_key(k) {
            Some(key_map(old(es)@)[k])
        } else {
            None
        }),
{
    let ghost before = es@;
    match find_key(es, k) {
        Some(i) => {
            let (_, v) = es.remove(i);
            proof {
                let after = es@;
                assert forall|a: int, b: int| 0 <= a < b < after.len() implies #[trigger] after[a].0
                    != #[trigger] after[b].0 by {
                    let a2 = if a < i { a } else { a + 1 };
                    let b2 = if b < i { b } else { b + 1 };
                    assert(after[a] == before[a2] && after[b] == before[b2]);
                }
                assert forall|x: ObjectId| #[trigger] key_map(after).contains_key(x) == key_map(
                    before,
                ).remove(k).contains_key(x) && (key_map(after).contains_key(x) ==> key_map(after)[x]
                    == key_map(before).remove(k)[x]) by {
                    lemma_key_map(before, x);
                    lemma_key_map(after, x);
                    lemma_key_index(before, x);
                    lemma_key_index(after, x);
                    if let Some(j) = key_index(after, x) {
                        let j2 = if j < i { j } else { j + 1 };
                        assert(after[j] == before[j2]);
                    }
                    if let Some(j) = key_index(before, x) {
                        if x != k {
                            assert(j != i);
                            let j1 = if j < i { j } else { j - 1 };
                            assert(after[j1] == before[j]);
                            lemma_key_index_is(after, x, j1);
                        }
                    }
                }
                assert(key_map(after) =~= key_map(before).remove(k));
                lemma_key_map(before, k);
            }
            Some(v)
        },
        None => {
            assert(key_map(es@) =~= key_map(before).remove(k));
            None
        },
    }
}

} // verus!
