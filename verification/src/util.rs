use vstd::prelude::*;
use vstd::string::*;

verus! {

/// The separator between the components of a property path.
pub open spec fn path_sep() -> char {
    '/'
}

/// `parts` joined by `sep`: the parts in order, one `sep` between two neighbours.
pub open spec fn seq_join(parts: Seq<Seq<char>>, sep: char) -> Seq<char>
    decreases parts.len(),
{
    if parts.len() == 0 {
        seq![]
    } else if parts.len() == 1 {
        parts[0]
    } else {
        seq_join(parts.drop_last(), sep) + seq![sep] + parts.last()
    }
}

/// `s` cut at every occurrence of `sep`: the pieces between the separators,
/// in order, empty pieces included (so the empty text gives one empty piece).
pub open spec fn seq_split(s: Seq<char>, sep: char) -> Seq<Seq<char>>
    decreases s.len(),
{
    if s.len() == 0 {
        seq![seq![]]
    } else {
        let init = seq_split(s.drop_last(), sep);
        if s.last() == sep {
            init.push(seq![])
        } else {
            init.update(init.len() - 1, init.last().push(s.last()))
        }
    }
}

/// The views of a list of owned strings.
pub open spec fn strings_view(v: Seq<String>) -> Seq<Seq<char>> {
    v.map_values(|s: String| s@)
}

/// The views of a list of string slices.
pub open spec fn strs_view(v: Seq<&str>) -> Seq<Seq<char>> {
    v.map_values(|s: &str| s@)
}

pub proof fn lemma_split_nonempty(s: Seq<char>, sep: char)
    ensures
        seq_split(s, sep).len() >= 1,
    decreases s.len(),
{
    if s.len() > 0 {
        lemma_split_nonempty(s.drop_last(), sep);
    }
}

/// No piece of a split holds the separator.
pub proof fn lemma_split_pieces_no_sep(s: Seq<char>, sep: char, i: int)
    requires
        0 <= i < seq_split(s, sep).len(),
    ensures
        !seq_split(s, sep)[i].contains(sep),
    decreases s.len(),
{
    if s.len() > 0 {
        let p = s.drop_last();
        let init = seq_split(p, sep);
        lemma_split_nonempty(p, sep);
        if s.last() == sep {
            if i < init.len() {
                lemma_split_pieces_no_sep(p, sep, i);
            } else {
                assert(seq_split(s, sep)[i] =~= Seq::<char>::empty());
            }
        } else {
            if i < init.len() - 1 {
                lemma_split_pieces_no_sep(p, sep, i);
            } else {
                lemma_split_pieces_no_sep(p, sep, init.len() - 1);
                let piece = init.last().push(s.last());
                assert forall|k: int| 0 <= k < piece.len() implies piece[k] != sep by {
                    if k < piece.len() - 1 {
                        assert(piece[k] == init.last()[k]);
                    }
                }
            }
        }
    }
}

/// Joining the pieces of a split gives the text back.
pub proof fn law_join_split(s: Seq<char>, sep: char)
    ensures
        seq_join(seq_split(s, sep), sep) == s,
    decreases s.len(),
{
    if s.len() > 0 {
        let p = s.drop_last();
        let init = seq_split(p, sep);
        law_join_split(p, sep);
        lemma_split_nonempty(p, sep);
        if s.last() == sep {
            let parts = init.push(seq![]);
            assert(parts.drop_last() =~= init);
            assert(seq_join(parts, sep) =~= seq_join(init, sep) + seq![sep] + seq![]);
            assert(p.push(sep) =~= s);
        } else {
            let parts = init.update(init.len() - 1, init.last().push(s.last()));
            if init.len() == 1 {
                assert(init[0] =~= p);
                assert(s =~= p.push(s.last()));
            } else {
                assert(parts.drop_last() =~= init.drop_last());
                assert(seq_join(init, sep) =~= seq_join(init.drop_last(), sep) + seq![sep]
                    + init.last());
                assert(seq_join(parts, sep) =~= seq_join(init.drop_last(), sep) + seq![sep]
                    + init.last().push(s.last()));
                assert(s =~= p.push(s.last()));
            }
        }
    }
}

/// Splitting `prefix`, a separator, then a piece without separator adds that
/// piece after the pieces of `prefix`.
proof fn lemma_split_append_piece(prefix: Seq<char>, last: Seq<char>, sep: char)
    requires
        !last.contains(sep),
    ensures
        seq_split(prefix + seq![sep] + last, sep) == seq_split(prefix, sep).push(last),
    decreases last.len(),
{
    if last.len() == 0 {
        let s = prefix + seq![sep] + last;
        assert(s.drop_last() =~= prefix);
        assert(s.last() == sep);
        assert(last =~= seq![]);
    } else {
        let shorter = last.drop_last();
        assert forall|k: int| 0 <= k < shorter.len() implies shorter[k] != sep by {
            assert(shorter[k] == last[k]);
        }
        lemma_split_append_piece(prefix, shorter, sep);
        let s = prefix + seq![sep] + last;
        assert(s.drop_last() =~= prefix + seq![sep] + shorter);
        assert(s.last() == last.last());
        assert(last.last() != sep) by {
            assert(last.last() == last[last.len() - 1]);
        }
        let init = seq_split(prefix, sep).push(shorter);
        assert(init.update(init.len() - 1, init.last().push(s.last())) =~= seq_split(
            prefix,
            sep,
        ).push(last)) by {
            assert(shorter.push(last.last()) =~= last);
        }
    }
}

/// Splitting a text that holds no separator gives that text as the one piece.
proof fn lemma_split_no_sep(s: Seq<char>, sep: char)
    requires
        !s.contains(sep),
    ensures
        seq_split(s, sep) == seq![s],
    decreases s.len(),
{
    if s.len() == 0 {
        assert(s =~= seq![]);
    } else {
        let p = s.drop_last();
        assert forall|k: int| 0 <= k < p.len() implies p[k] != sep by {
            assert(p[k] == s[k]);
        }
        lemma_split_no_sep(p, sep);
        assert(s.last() != sep) by {
            assert(s.last() == s[s.len() - 1]);
        }
        assert(seq![p].update(0, p.push(s.last())) =~= seq![s]) by {
            assert(p.push(s.last()) =~= s);
        }
    }
}

/// Splitting the join of pieces that hold no separator gives the pieces back
/// (for at least one piece: no list of pieces joins to what the empty list does).
pub proof fn law_split_join(parts: Seq<Seq<char>>, sep: char)
    requires
        parts.len() >= 1,
        forall|i: int| 0 <= i < parts.len() ==> !(#[trigger] parts[i]).contains(sep),
    ensures
        seq_split(seq_join(parts, sep), sep) == parts,
    decreases parts.len(),
{
    if parts.len() == 1 {
        lemma_split_no_sep(parts[0], sep);
        assert(seq![parts[0]] =~= parts);
    } else {
        let init = parts.drop_last();
        assert forall|i: int| 0 <= i < init.len() implies !(#[trigger] init[i]).contains(sep) by {
            assert(init[i] == parts[i]);
        }
        law_split_join(init, sep);
        assert(!parts.last().contains(sep)) by {
            assert(parts.last() == parts[parts.len() - 1]);
        }
        lemma_split_append_piece(seq_join(init, sep), parts.last(), sep);
        assert(init.push(parts.last()) =~= parts);
    }
}

/// Joins the components of a path with '/'.
pub fn join_string(path: &Vec<String>) -> (s: String)
    ensures
        s@ == seq_join(strings_view(path@), path_sep()),
{
    let mut s = String::new();
    let mut first = true;
    let ghost parts = strings_view(path@);
    proof {
        reveal_strlit("/");
    }
    let mut i: usize = 0;
    while i < path.len()
        invariant
            i <= path.len(),
            parts == strings_view(path@),
            first <==> i == 0,
            s@ == seq_join(parts.take(i as int), path_sep()),
            "/"@ == seq!['/'],
        decreases path.len() - i,
    {
        if !first {
            s.append("/");
        }
        s.append(path[i].as_str());
        first = false;
        proof {
            let next = parts.take(i + 1);
            assert(next.drop_last() =~= parts.take(i as int));
            assert(next.last() == path@[i as int]@);
            if i == 0 {
                assert(s@ =~= seq_join(next, path_sep()));
            }
        }
        i = i + 1;
    }
    assert(parts.take(path.len() as int) =~= parts);
    s
}

/// Joins the components of a path, given as string slices, with '/'.
pub fn join_str(path: &Vec<&str>) -> (s: String)
    ensures
        s@ == seq_join(strs_view(path@), path_sep()),
{
    let mut s = String::new();
    let mut first = true;
    let ghost parts = strs_view(path@);
    proof {
        reveal_strlit("/");
    }
    let mut i: usize = 0;
    while i < path.len()
        invariant
            i <= path.len(),
            parts == strs_view(path@),
            first <==> i == 0,
            s@ == seq_join(parts.take(i as int), path_sep()),
            "/"@ == seq!['/'],
        decreases path.len() - i,
    {
        if !first {
            s.append("/");
        }
        s.append(path[i]);
        first = false;
        proof {
            let next = parts.take(i + 1);
            assert(next.drop_last() =~= parts.take(i as int));
            assert(next.last() == path@[i as int]@);
            if i == 0 {
                assert(s@ =~= seq_join(next, path_sep()));
            }
        }
        i = i + 1;
    }
    assert(parts.take(path.len() as int) =~= parts);
    s
}

/// Appends one character to a string (`String::push`): what is claimed is
/// that the text afterwards is the text before with that character at its
/// end.
#[verifier::external_body]
pub(crate) fn string_push(s: &mut String, c: char)
    ensures
        final(s)@ == old(s)@.push(c),
{
    s.push(c);
}

/// Cuts `s` at every `sep`, keeping empty pieces.
pub(crate) fn split_char(s: &str, sep: char) -> (v: Vec<String>)
    ensures
        strings_view(v@) == seq_split(s@, sep),
{
    let n = s.unicode_len();
    let mut done: Vec<String> = Vec::new();
    let mut cur = String::new();
    let mut i: usize = 0;
    while i < n
        invariant
            n == s@.len(),
            i <= n,
            strings_view(done@).push(cur@) == seq_split(s@.take(i as int), sep),
        decreases n - i,
    {
        let c = s.get_char(i);
        proof {
            let t = s@.take(i + 1);
            assert(t.drop_last() =~= s@.take(i as int));
            assert(t.last() == c);
        }
        if c == sep {
            let piece = cur;
            done.push(piece);
            cur = String::new();
            proof {
                assert(strings_view(done@).push(cur@) =~= seq_split(s@.take(i as int), sep).push(seq![]));
            }
        } else {
            let ghost before = cur@;
            string_push(&mut cur, c);
            proof {
                let init = seq_split(s@.take(i as int), sep);
                assert(strings_view(done@).push(cur@) =~= init.update(
                    init.len() - 1,
                    init.last().push(c),
                ));
            }
        }
        i = i + 1;
    }
    assert(s@.take(n as int) =~= s@);
    done.push(cur);
    assert(strings_view(done@) =~= seq_split(s@, sep));
    done
}

/// Cuts a path at every '/': "a/b" gives ["a", "b"], "" gives [""], "a/" gives ["a", ""].
pub fn make_vec_from_str(s: &str) -> (v: Vec<String>)
    ensures
        strings_view(v@) == seq_split(s@, path_sep()),
{
    split_char(s, '/')
}

} // verus!
