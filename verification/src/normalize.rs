//! Title normalization and artist-name cleaning.
//!
//! `normalize` lowercases a title, strips a trailing "(feat …)" suffix and a
//! trailing "original mix"/"original version" suffix, trims trailing spaces,
//! and in strict mode additionally removes spaces, semicolons and ampersands.
//! Strict normalization is used only for equality and similarity comparison,
//! never for display.

use vstd::prelude::*;
use crate::text::{chars_of, lower_chars, lower_seq, string_from_chars};

verus! {

/// First index at or after `p` that does not hold an opening parenthesis.
pub open spec fn paren_run_end(s: Seq<char>, p: int) -> int
    decreases s.len() - p when 0 <= p <= s.len()
{
    if p < s.len() && s[p] == '(' {
        paren_run_end(s, p + 1)
    } else {
        p
    }
}

pub proof fn lemma_paren_run_end_bounds(s: Seq<char>, p: int)
    requires
        0 <= p <= s.len(),
    ensures
        p <= paren_run_end(s, p) <= s.len(),
    decreases s.len() - p,
{
    if p < s.len() && s[p] == '(' {
        lemma_paren_run_end_bounds(s, p + 1);
    }
}

/// A "feat" suffix begins at `p`: zero or more opening parentheses, then the
/// letters "feat"; everything from `p` to the end of the title is dropped.
pub open spec fn feat_at(s: Seq<char>, p: int) -> bool {
    let j = paren_run_end(s, p);
    j + 4 <= s.len() && s[j] == 'f' && s[j + 1] == 'e' && s[j + 2] == 'a' && s[j + 3] == 't'
}

/// Smallest index at or after `from` where a "feat" suffix begins.
pub open spec fn first_feat(s: Seq<char>, from: int) -> Option<int>
    decreases s.len() - from when 0 <= from <= s.len()
{
    if from >= s.len() {
        None
    } else if feat_at(s, from) {
        Some(from)
    } else {
        first_feat(s, from + 1)
    }
}

pub open spec fn strip_feat(s: Seq<char>) -> Seq<char> {
    match first_feat(s, 0) {
        Some(p) => s.take(p),
        None => s,
    }
}

pub open spec fn all_close_parens(s: Seq<char>, q: int) -> bool {
    forall|k: int| q <= k < s.len() ==> s[k] == ')'
}

pub open spec fn mix_at(s: Seq<char>, q: int) -> bool {
    q + 4 <= s.len() && s[q] == ' ' && s[q + 1] == 'm' && s[q + 2] == 'i' && s[q + 3] == 'x'
}

pub open spec fn version_at(s: Seq<char>, q: int) -> bool {
    q + 8 <= s.len() && s[q] == ' ' && s[q + 1] == 'v' && s[q + 2] == 'e' && s[q + 3] == 'r'
        && s[q + 4] == 's' && s[q + 5] == 'i' && s[q + 6] == 'o' && s[q + 7] == 'n'
}

/// What may follow the word "original" in a stripped suffix: repetitions of
/// " mix" or " version", then closing parentheses up to the end of the title.
pub open spec fn orig_tail(s: Seq<char>, q: int) -> bool
    decreases s.len() - q when 0 <= q <= s.len()
{
    if q >= s.len() {
        true
    } else {
        (mix_at(s, q) && orig_tail(s, q + 4)) || (version_at(s, q) && orig_tail(s, q + 8))
            || all_close_parens(s, q)
    }
}

pub open spec fn orig_word_at(s: Seq<char>, j: int) -> bool {
    j + 8 <= s.len() && s[j] == 'o' && s[j + 1] == 'r' && s[j + 2] == 'i' && s[j + 3] == 'g'
        && s[j + 4] == 'i' && s[j + 5] == 'n' && s[j + 6] == 'a' && s[j + 7] == 'l'
}

/// An "original mix"/"original version" suffix begins at `p` and reaches the
/// end of the title.
pub open spec fn orig_at(s: Seq<char>, p: int) -> bool {
    let j = paren_run_end(s, p);
    orig_word_at(s, j) && orig_tail(s, j + 8)
}

pub open spec fn first_orig(s: Seq<char>, from: int) -> Option<int>
    decreases s.len() - from when 0 <= from <= s.len()
{
    if from >= s.len() {
        None
    } else if orig_at(s, from) {
        Some(from)
    } else {
        first_orig(s, from + 1)
    }
}

pub open spec fn strip_orig(s: Seq<char>) -> Seq<char> {
    match first_orig(s, 0) {
        Some(p) => s.take(p),
        None => s,
    }
}

pub open spec fn trim_end_spaces(s: Seq<char>) -> Seq<char>
    decreases s.len(),
{
    if s.len() > 0 && s[s.len() - 1] == ' ' {
        trim_end_spaces(s.drop_last())
    } else {
        s
    }
}

/// Characters removed by strict normalization.
pub open spec fn stripped_char(c: char) -> bool {
    c == ' ' || c == ';' || c == '&'
}

pub open spec fn strip_strict(s: Seq<char>) -> Seq<char>
    decreases s.len(),
{
    if s.len() == 0 {
        s
    } else if stripped_char(s[0]) {
        strip_strict(s.drop_first())
    } else {
        seq![s[0]] + strip_strict(s.drop_first())
    }
}

/// The normalized form of a title.
pub open spec fn normalize_spec(s: Seq<char>, strict: bool) -> Seq<char> {
    let t = trim_end_spaces(strip_orig(strip_feat(lower_seq(s))));
    if strict {
        strip_strict(t)
    } else {
        t
    }
}

/// The pattern a cleaned artist name loses: a trailing " (N)" or " (NN)"
/// catalog disambiguation suffix, with one or two digits.
pub open spec fn is_digit_char(c: char) -> bool {
    48 <= c as u32 <= 57
}

pub open spec fn artist_suffix_len(s: Seq<char>) -> int {
    if s.len() >= 4 && s[s.len() - 1] == ')' && is_digit_char(s[s.len() - 2]) && s[s.len() - 3]
        == '(' && s[s.len() - 4] == ' ' {
        4
    } else if s.len() >= 5 && s[s.len() - 1] == ')' && is_digit_char(s[s.len() - 2])
        && is_digit_char(s[s.len() - 3]) && s[s.len() - 4] == '(' && s[s.len() - 5] == ' ' {
        5
    } else {
        0
    }
}

pub open spec fn clean_artist_spec(s: Seq<char>) -> Seq<char> {
    s.take(s.len() - artist_suffix_len(s))
}

fn paren_run_end_exec(v: &Vec<char>, p: usize) -> (r: usize)
    requires
        p <= v@.len(),
    ensures
        r == paren_run_end(v@, p as int),
        p <= r <= v@.len(),
    decreases v@.len() - p,
{
    if p < v.len() && v[p] == '(' {
        paren_run_end_exec(v, p + 1)
    } else {
        p
    }
}

fn feat_at_exec(v: &Vec<char>, p: usize) -> (r: bool)
    requires
        p <= v@.len(),
    ensures
        r == feat_at(v@, p as int),
{
    let j = paren_run_end_exec(v, p);
    if v.len() - j >= 4 {
        v[j] == 'f' && v[j + 1] == 'e' && v[j + 2] == 'a' && v[j + 3] == 't'
    } else {
        false
    }
}

fn find_feat(v: &Vec<char>, from: usize) -> (r: Option<usize>)
    requires
        from <= v@.len(),
    ensures
        match r {
            Some(p) => first_feat(v@, from as int) == Some(p as int) && p < v@.len(),
            None => first_feat(v@, from as int) is None,
        },
    decreases v@.len() - from,
{
    if from >= v.len() {
        None
    } else if feat_at_exec(v, from) {
        Some(from)
    } else {
        find_feat(v, from + 1)
    }
}

fn all_close_parens_exec(v: &Vec<char>, q: usize) -> (r: bool)
    requires
        q <= v@.len(),
    ensures
        r == all_close_parens(v@, q as int),
{
    let mut k: usize = q;
    while k < v.len()
        invariant
            q <= k <= v@.len(),
            forall|j: int| q <= j < k ==> v@[j] == ')',
        decreases v@.len() - k,
    {
        if v[k] != ')' {
            return false;
        }
        k = k + 1;
    }
    true
}

fn mix_at_exec(v: &Vec<char>, q: usize) -> (r: bool)
    requires
        q <= v@.len(),
    ensures
        r == mix_at(v@, q as int),
{
    v.len() - q >= 4 && v[q] == ' ' && v[q + 1] == 'm' && v[q + 2] == 'i' && v[q + 3] == 'x'
}

fn version_at_exec(v: &Vec<char>, q: usize) -> (r: bool)
    requires
        q <= v@.len(),
    ensures
        r == version_at(v@, q as int),
{
    v.len() - q >= 8 && v[q] == ' ' && v[q + 1] == 'v' && v[q + 2] == 'e' && v[q + 3] == 'r'
        && v[q + 4] == 's' && v[q + 5] == 'i' && v[q + 6] == 'o' && v[q + 7] == 'n'
}

fn orig_tail_exec(v: &Vec<char>, q: usize) -> (r: bool)
    requires
        q <= v@.len(),
    ensures
        r == orig_tail(v@, q as int),
    decreases v@.len() - q,
{
    if q >= v.len() {
        true
    } else if mix_at_exec(v, q) && orig_tail_exec(v, q + 4) {
        true
    } else if version_at_exec(v, q) && orig_tail_exec(v, q + 8) {
        true
    } else {
        all_close_parens_exec(v, q)
    }
}

fn orig_at_exec(v: &Vec<char>, p: usize) -> (r: bool)
    requires
        p <= v@.len(),
    ensures
        r == orig_at(v@, p as int),
{
    let j = paren_run_end_exec(v, p);
    if v.len() - j >= 8 {
        let word = v[j] == 'o' && v[j + 1] == 'r' && v[j + 2] == 'i' && v[j + 3] == 'g' && v[j + 4]
            == 'i' && v[j + 5] == 'n' && v[j + 6] == 'a' && v[j + 7] == 'l';
        word && orig_tail_exec(v, j + 8)
    } else {
        false
    }
}

fn find_orig(v: &Vec<char>, from: usize) -> (r: Option<usize>)
    requires
        from <= v@.len(),
    ensures
        match r {
            Some(p) => first_orig(v@, from as int) == Some(p as int) && p < v@.len(),
            None => first_orig(v@, from as int) is None,
        },
    decreases v@.len() - from,
{
    if from >= v.len() {
        None
    } else if orig_at_exec(v, from) {
        Some(from)
    } else {
        find_orig(v, from + 1)
    }
}

fn prefix_of(v: &Vec<char>, n: usize) -> (r: Vec<char>)
    requires
        n <= v@.len(),
    ensures
        r@ == v@.take(n as int),
{
    let mut r: Vec<char> = Vec::new();
    let mut i: usize = 0;
    while i < n
        invariant
            i <= n <= v@.len(),
            r@.len() == i,
            forall|j: int| 0 <= j < i ==> r@[j] == v@[j],
        decreases n - i,
    {
        r.push(v[i]);
        i = i + 1;
    }
    proof {
        assert(r@ =~= v@.take(n as int));
    }
    r
}

fn trim_end_exec(v: Vec<char>) -> (r: Vec<char>)
    ensures
        r@ == trim_end_spaces(v@),
{
    let mut v = v;
    let mut n: usize = v.len();
    proof {
        assert(v@.take(n as int) =~= v@);
    }
    while n > 0 && v[n - 1] == ' '
        invariant
            n <= v@.len(),
            trim_end_spaces(v@.take(n as int)) == trim_end_spaces(v@),
        decreases n,
    {
        proof {
            assert(v@.take(n as int).drop_last() =~= v@.take(n - 1 as int));
        }
        n = n - 1;
    }
    v.truncate(n);
    proof {
        if n > 0 {
            assert(trim_end_spaces(v@) == v@);
        } else {
            assert(v@ =~= Seq::<char>::empty());
        }
    }
    v
}

fn strip_strict_exec(v: &Vec<char>) -> (r: Vec<char>)
    ensures
        r@ == strip_strict(v@),
{
    let mut r: Vec<char> = Vec::new();
    let mut i: usize = 0;
    proof {
        assert(v@.skip(0) =~= v@);
        assert(Seq::<char>::empty() + strip_strict(v@) =~= strip_strict(v@));
    }
    while i < v.len()
        invariant
            i <= v@.len(),
            r@ + strip_strict(v@.skip(i as int)) == strip_strict(v@),
        decreases v@.len() - i,
    {
        let c = v[i];
        proof {
            assert(v@.skip(i as int).drop_first() =~= v@.skip(i + 1 as int));
            assert(v@.skip(i as int)[0] == v@[i as int]);
        }
        if !(c == ' ' || c == ';' || c == '&') {
            r.push(c);
            proof {
                assert(r@ + strip_strict(v@.skip(i + 1 as int)) =~= strip_strict(v@));
            }
        }
        i = i + 1;
    }
    proof {
        assert(v@.skip(v@.len() as int) =~= Seq::<char>::empty());
        assert(r@ =~= strip_strict(v@));
    }
    r
}

/// Normalizes a title for comparison or display: lowercase, trailing
/// "(feat …)" and "original mix/version" suffixes stripped, trailing spaces
/// trimmed; with `strict`, spaces, semicolons and ampersands removed as well.
pub fn normalize(title: &str, strict: bool) -> (r: String)
    ensures
        r@ == normalize_spec(title@, strict),
{
    let v = chars_of(title);
    let low = lower_chars(&v);
    let f = match find_feat(&low, 0) {
        Some(p) => prefix_of(&low, p),
        None => low,
    };
    let o = match find_orig(&f, 0) {
        Some(p) => prefix_of(&f, p),
        None => f,
    };
    let t = trim_end_exec(o);
    let out = if strict {
        strip_strict_exec(&t)
    } else {
        t
    };
    string_from_chars(&out)
}

/// Strips a trailing catalog disambiguation suffix " (N)"/" (NN)" from an
/// artist name; names without such a suffix come back unchanged.
pub fn clean_discogs_artist(name: &str) -> (r: String)
    ensures
        r@ == clean_artist_spec(name@),
{
    let v = chars_of(name);
    let n = v.len();
    let cut: usize = if n >= 4 && v[n - 1] == ')' && is_digit_exec(v[n - 2]) && v[n - 3] == '('
        && v[n - 4] == ' ' {
        4
    } else if n >= 5 && v[n - 1] == ')' && is_digit_exec(v[n - 2]) && is_digit_exec(v[n - 3])
        && v[n - 4] == '(' && v[n - 5] == ' ' {
        5
    } else {
        0
    };
    let p = prefix_of(&v, n - cut);
    string_from_chars(&p)
}

fn is_digit_exec(c: char) -> (r: bool)
    ensures
        r == is_digit_char(c),
{
    let u = c as u32;
    48 <= u && u <= 57
}

/// Strict normalization leaves no space, semicolon or ampersand in the
/// result, whatever the title.
pub proof fn lemma_strict_normalize_clean(t: Seq<char>)
    ensures
        forall|i: int|
            0 <= i < normalize_spec(t, true).len() ==> !stripped_char(
                #[trigger] normalize_spec(t, true)[i],
            ),
{
    lemma_strip_strict_clean(trim_end_spaces(strip_orig(strip_feat(lower_seq(t)))));
}

proof fn lemma_strip_strict_clean(s: Seq<char>)
    ensures
        forall|i: int| 0 <= i < strip_strict(s).len() ==> !stripped_char(#[trigger] strip_strict(s)[i]),
    decreases s.len(),
{
    if s.len() == 0 {
    } else {
        lemma_strip_strict_clean(s.drop_first());
        if !stripped_char(s[0]) {
            assert forall|i: int|
                0 <= i < strip_strict(s).len() implies !stripped_char(
                #[trigger] strip_strict(s)[i],
            ) by {
                if i > 0 {
                    assert(strip_strict(s)[i] == strip_strict(s.drop_first())[i - 1]);
                }
            }
        }
    }
}

/// An artist name without the trailing " (N)"/" (NN)" suffix is unchanged by
/// the cleaner.
pub proof fn lemma_clean_artist_unchanged(s: Seq<char>)
    requires
        artist_suffix_len(s) == 0,
    ensures
        clean_artist_spec(s) == s,
{
    assert(clean_artist_spec(s) =~= s);
}

} // verus!
