//! String-list helpers for the tag writer: lexicographic sorting of genre
//! and style lists, separator joins, and artist-name cleaning over lists.

use vstd::prelude::*;
use crate::normalize::{clean_artist_spec, clean_discogs_artist};
use crate::text::{chars_le, str_le};
use vstd::string::StringExecFns;

verus! {

/// Insertion of `x` into a sorted list, before the first element it is not
/// greater than.
pub open spec fn insert_sorted(x: Seq<char>, s: Seq<Seq<char>>) -> Seq<Seq<char>>
    decreases s.len(),
{
    if s.len() == 0 {
        seq![x]
    } else if chars_le(x, s[0]) {
        seq![x] + s
    } else {
        seq![s[0]] + insert_sorted(x, s.drop_first())
    }
}

/// The list sorted in lexicographic order, stably, by insertion.
pub open spec fn sort_spec(s: Seq<Seq<char>>) -> Seq<Seq<char>>
    decreases s.len(),
{
    if s.len() == 0 {
        s
    } else {
        insert_sorted(s[0], sort_spec(s.drop_first()))
    }
}

proof fn lemma_insert_at(x: Seq<char>, s: Seq<Seq<char>>, p: int)
    requires
        0 <= p <= s.len(),
        forall|k: int| 0 <= k < p ==> !chars_le(x, #[trigger] s[k]),
        p < s.len() ==> chars_le(x, s[p]),
    ensures
        insert_sorted(x, s) == s.take(p) + seq![x] + s.skip(p),
    decreases p,
{
    if s.len() == 0 {
        assert(insert_sorted(x, s) =~= s.take(p) + seq![x] + s.skip(p));
    } else if chars_le(x, s[0]) {
        assert(p == 0);
        assert(seq![x] + s =~= s.take(0) + seq![x] + s.skip(0));
    } else {
        assert(p >= 1);
        assert(forall|k: int| 0 <= k < p - 1 ==> !chars_le(x, #[trigger] s.drop_first()[k]));
        lemma_insert_at(x, s.drop_first(), p - 1);
        assert(seq![s[0]] + (s.drop_first().take(p - 1) + seq![x] + s.drop_first().skip(p - 1))
            =~= s.take(p) + seq![x] + s.skip(p));
    }
}

fn lower_position(x: &str, v: &Vec<String>) -> (p: usize)
    ensures
        p <= v@.len(),
        forall|k: int| 0 <= k < p ==> !chars_le(x@, #[trigger] v.deep_view()[k]),
        p < v@.len() ==> chars_le(x@, v.deep_view()[p as int]),
{
    let mut p: usize = 0;
    while p < v.len()
        invariant
            p <= v@.len(),
            forall|k: int| 0 <= k < p ==> !chars_le(x@, #[trigger] v.deep_view()[k]),
        decreases v@.len() - p,
    {
        if str_le(x, v[p].as_str()) {
            return p;
        }
        p = p + 1;
    }
    p
}

fn insert_string_sorted(x: String, v: Vec<String>) -> (r: Vec<String>)
    ensures
        r.deep_view() == insert_sorted(x@, v.deep_view()),
{
    let ghost vv = v.deep_view();
    let p = lower_position(x.as_str(), &v);
    proof {
        lemma_insert_at(x@, vv, p as int);
    }
    let mut r = v;
    r.insert(p, x);
    proof {
        assert(r.deep_view() =~= vv.take(p as int) + seq![x@] + vv.skip(p as int));
    }
    r
}

/// Sorts a string list lexicographically by code point; for the catalog's
/// genre and style lists this is the case-sensitive order the tags carry.
pub fn sort_strings(v: &Vec<String>) -> (r: Vec<String>)
    ensures
        r.deep_view() == sort_spec(v.deep_view()),
{
    let mut out: Vec<String> = Vec::new();
    let mut i: usize = v.len();
    proof {
        assert(v.deep_view().skip(v@.len() as int) =~= Seq::<Seq<char>>::empty());
        assert(out.deep_view() =~= Seq::<Seq<char>>::empty());
    }
    while i > 0
        invariant
            i <= v@.len(),
            out.deep_view() == sort_spec(v.deep_view().skip(i as int)),
        decreases i,
    {
        i = i - 1;
        proof {
            assert(v.deep_view().skip(i as int).drop_first() =~= v.deep_view().skip(i + 1 as int));
            assert(v.deep_view().skip(i as int)[0] == v.deep_view()[i as int]);
        }
        let x = v[i].clone();
        out = insert_string_sorted(x, out);
    }
    proof {
        assert(v.deep_view().skip(0) =~= v.deep_view());
    }
    out
}

/// Joins string pieces with a separator, in order.
pub open spec fn join_spec(parts: Seq<Seq<char>>, sep: Seq<char>) -> Seq<char>
    decreases parts.len(),
{
    if parts.len() == 0 {
        Seq::empty()
    } else if parts.len() == 1 {
        parts[0]
    } else {
        parts[0] + sep + join_spec(parts.drop_first(), sep)
    }
}

fn join_from(parts: &Vec<String>, from: usize, sep: &str, out: &mut String)
    requires
        from <= parts@.len(),
    ensures
        final(out)@ == old(out)@ + join_spec(parts.deep_view().skip(from as int), sep@),
    decreases parts@.len() - from,
{
    if from >= parts.len() {
        proof {
            assert(old(out)@ + join_spec(parts.deep_view().skip(from as int), sep@) =~= old(
                out,
            )@);
        }
        return ;
    }
    proof {
        assert(parts.deep_view().skip(from as int).drop_first() =~= parts.deep_view().skip(
            from + 1 as int,
        ));
        assert(parts.deep_view().skip(from as int)[0] == parts.deep_view()[from as int]);
    }
    out.append(parts[from].as_str());
    if from + 1 < parts.len() {
        out.append(sep);
        join_from(parts, from + 1, sep, out);
        proof {
            assert(final(out)@ =~= old(out)@ + join_spec(
                parts.deep_view().skip(from as int),
                sep@,
            ));
        }
    } else {
        proof {
            assert(final(out)@ =~= old(out)@ + join_spec(
                parts.deep_view().skip(from as int),
                sep@,
            ));
        }
    }
}

/// Joins a string list with a separator.
pub fn join_strings(parts: &Vec<String>, sep: &str) -> (r: String)
    ensures
        r@ == join_spec(parts.deep_view(), sep@),
{
    let mut out = String::new();
    join_from(parts, 0, sep, &mut out);
    proof {
        assert(parts.deep_view().skip(0) =~= parts.deep_view());
    }
    out
}

/// The artist cleaner applied to every name of a list.
pub open spec fn cleaned_names(names: Seq<Seq<char>>) -> Seq<Seq<char>> {
    names.map_values(|n: Seq<char>| clean_artist_spec(n))
}

pub fn clean_artist_list(names: &Vec<String>) -> (r: Vec<String>)
    ensures
        r.deep_view() == cleaned_names(names.deep_view()),
{
    let mut r: Vec<String> = Vec::new();
    let mut i: usize = 0;
    while i < names.len()
        invariant
            i <= names@.len(),
            r@.len() == i,
            forall|k: int|
                0 <= k < i ==> r.deep_view()[k] == clean_artist_spec(
                    #[trigger] names.deep_view()[k],
                ),
        decreases names@.len() - i,
    {
        r.push(clean_discogs_artist(names[i].as_str()));
        i = i + 1;
    }
    proof {
        assert(r.deep_view() =~= cleaned_names(names.deep_view()));
    }
    r
}

/// Concatenates two string lists.
pub fn concat_strings(a: &Vec<String>, b: &Vec<String>) -> (r: Vec<String>)
    ensures
        r.deep_view() == a.deep_view() + b.deep_view(),
{
    let mut r = crate::records::clone_strings(a);
    let mut i: usize = 0;
    while i < b.len()
        invariant
            i <= b@.len(),
            r@.len() == a@.len() + i,
            forall|k: int| 0 <= k < a@.len() ==> r@[k] == a@[k],
            forall|k: int| 0 <= k < i ==> r@[a@.len() + k] == b@[k],
        decreases b@.len() - i,
    {
        r.push(b[i].clone());
        i = i + 1;
    }
    proof {
        assert(r.deep_view() =~= a.deep_view() + b.deep_view());
    }
    r
}

} // verus!
