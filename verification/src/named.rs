use vstd::prelude::*;
use vstd::string::*;

verus! {

/// The place of the entry named `key`, if any.
pub open spec fn named_index<V>(es: Seq<(String, V)>, key: Seq<char>) -> Option<int>
    decreases es.len(),
{
    if es.len() == 0 {
        None
    } else {
        match named_index(es.drop_last(), key) {
            Some(i) => Some(i),
            None => if es.last().0@ == key {
                Some(es.len() - 1)
            } else {
                None
            },
        }
    }
}

/// The value of the entry named `key`, if any.
pub open spec fn named_get<V>(es: Seq<(String, V)>, key: Seq<char>) -> Option<V> {
    match named_index(es, key) {
        Some(i) => Some(es[i].1),
        None => None,
    }
}

/// No two entries have one name.
pub open spec fn names_unique<V>(es: Seq<(String, V)>) -> bool {
    forall|i: int, j: int| 0 <= i < j < es.len() ==> #[trigger] es[i].0@ != #[trigger] es[j].0@
}

pub proof fn lemma_named_index<V>(es: Seq<(String, V)>, key: Seq<char>)
    ensures
        match named_index(es, key) {
            Some(i) => 0 <= i < es.len() && es[i].0@ == key,
            None => forall|k: int| 0 <= k < es.len() ==> es[k].0@ != key,
        },
    decreases es.len(),
{
    if es.len() > 0 {
        lemma_named_index(es.drop_last(), key);
        assert forall|k: int| 0 <= k < es.len() - 1 implies es[k] == es.drop_last()[k] by {}
    }
}

pub proof fn lemma_named_index_is<V>(es: Seq<(String, V)>, key: Seq<char>, k: int)
    requires
        names_unique(es),
        0 <= k < es.len(),
        es[k].0@ == key,
    ensures
        named_index(es, key) == Some(k),
{
    lemma_named_index(es, key);
    if let Some(i) = named_index(es, key) {
        if i < k {
            assert(es[i].0@ != es[k].0@);
        } else if i > k {
            assert(es[k].0@ != es[i].0@);
        }
    }
}

pub(crate) fn find_named<V>(es: &Vec<(String, V)>, key: &str) -> (r: Option<usize>)
    ensures
        match r {
            Some(i) => i < es@.len() && named_index(es@, key@) == Some(i as int),
            None => named_index(es@, key@) is None,
        },
{
    let key_s = String::from_str(key);
    let mut i: usize = 0;
    while i < es.len()
        invariant
            i <= es@.len(),
            key_s@ == key@,
            named_index(es@.take(i as int), key@) is None,
        decreases es.len() - i,
    {
        proof {
            let t = es@.take(i + 1);
            assert(t.drop_last() =~= es@.take(i as int));
        }
        if es[i].0 == key_s {
            proof {
                lemma_named_prefix(es@, i as int + 1, key@);
            }
            return Some(i);
        }
        i = i + 1;
    }
    assert(es@.take(es@.len() as int) =~= es@);
    None
}

proof fn lemma_named_prefix<V>(es: Seq<(String, V)>, k: int, key: Seq<char>)
    requires
        0 <= k <= es.len(),
        named_index(es.take(k), key) is Some,
    ensures
        named_index(es, key) == named_index(es.take(k), key),
    decreases es.len() - k,
{
    if k < es.len() {
        let t = es.take(k + 1);
        assert(t.drop_last() =~= es.take(k));
        lemma_named_prefix(es, k + 1, key);
    } else {
        assert(es.take(k) =~= es);
    }
}

/// Sets the entry `key` to `value`: in place where there is one, else as a
/// new entry after the others.
pub(crate) fn named_set<V>(es: &mut Vec<(String, V)>, key: &str, value: V)
    requires
        names_unique(old(es)@),
    ensures
        names_unique(final(es)@),
        final(es)@.len() == old(es)@.len() + if named_index(old(es)@, key@) is Some {
            0int
        } else {
            1int
        },
        named_get(final(es)@, key@) == Some(value),
        forall|other: Seq<char>|
            other != key@ ==> #[trigger] named_get(final(es)@, other) == named_get(old(es)@, other),
{
    let ghost before = es@;
    proof {
        lemma_named_index(before, key@);
    }
    match find_named(es, key) {
        Some(i) => {
            let mut entry = (String::from_str(key), value);
            es.set_and_swap(i, &mut entry);
            proof {
                let after = es@;
                assert(names_unique(after)) by {
                    assert forall|a: int, b: int| 0 <= a < b < after.len() implies #[trigger] after[a].0@
                        != #[trigger] after[b].0@ by {
                        if a != i && b != i {
                            assert(after[a] == before[a] && after[b] == before[b]);
                        } else if a == i {
                            assert(before[b].0@ != before[i as int].0@);
                        } else {
                            assert(before[a].0@ != before[i as int].0@);
                        }
                    }
                }
                lemma_named_index_is(after, key@, i as int);
                assert forall|other: Seq<char>| other != key@ implies #[trigger] named_get(
                    after,
                    other,
                ) == named_get(before, other) by {
                    lemma_named_index(before, other);
                    lemma_named_index(after, other);
                    if let Some(k) = named_index(before, other) {
                        assert(after[k] == before[k]);
                        lemma_named_index_is(after, other, k);
                    } else if let Some(k) = named_index(after, other) {
                        assert(after[k] == before[k]);
                    }
                }
            }
        },
        None => {
            es.push((String::from_str(key), value));
            proof {
                let after = es@;
                assert(names_unique(after)) by {
                    assert forall|a: int, b: int| 0 <= a < b < after.len() implies #[trigger] after[a].0@
                        != #[trigger] after[b].0@ by {
                        if b == before.len() {
                            assert(after[a] == before[a]);
                        } else {
                            assert(after[a] == before[a] && after[b] == before[b]);
                        }
                    }
                }
                lemma_named_index_is(after, key@, before.len() as int);
                assert forall|other: Seq<char>| other != key@ implies #[trigger] named_get(
                    after,
                    other,
                ) == named_get(before, other) by {
                    lemma_named_index(before, other);
                    lemma_named_index(after, other);
                    if let Some(k) = named_index(before, other) {
                        assert(after[k] == before[k]);
                        lemma_named_index_is(after, other, k);
                    } else if let Some(k) = named_index(after, other) {
                        assert(after[k] == before[k]);
                    }
                }
            }
        },
    }
}


/// Takes out the entry `key`, if there is one.
pub(crate) fn named_remove<V>(es: &mut Vec<(String, V)>, key: &str)
    requires
        names_unique(old(es)@),
    ensures
        names_unique(final(es)@),
        named_get(final(es)@, key@) is None,
        forall|other: Seq<char>|
            other != key@ ==> #[trigger] named_get(final(es)@, other) == named_get(old(es)@, other),
{
    let ghost before = es@;
    match find_named(es, key) {
        Some(i) => {
            es.remove(i);
            proof {
                let after = es@;
                assert forall|a: int, b: int| 0 <= a < b < after.len() implies #[trigger] after[a].0@
                    != #[trigger] after[b].0@ by {
                    let a2 = if a < i { a } else { a + 1 };
                    let b2 = if b < i { b } else { b + 1 };
                    assert(after[a] == before[a2] && after[b] == before[b2]);
                }
                lemma_named_index(before, key@);
                lemma_named_index(after, key@);
                if let Some(j) = named_index(after, key@) {
                    let j2 = if j < i { j } else { j + 1 };
                    assert(after[j] == before[j2]);
                    assert(before[j2].0@ != before[i as int].0@);
                }
                assert forall|other: Seq<char>| other != key@ implies #[trigger] named_get(
                    after,
                    other,
                ) == named_get(before, other) by {
                    lemma_named_index(before, other);
                    lemma_named_index(after, other);
                    if let Some(j) = named_index(before, other) {
                        assert(j != i);
                        let j1 = if j < i { j } else { j - 1 };
                        assert(after[j1] == before[j]);
                        lemma_named_index_is(after, other, j1);
                    } else if let Some(j) = named_index(after, other) {
                        let j2 = if j < i { j } else { j + 1 };
                        assert(after[j] == before[j2]);
                    }
                }
            }
        },
        None => {},
    }
}

} // verus!
