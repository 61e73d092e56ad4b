//! Edit distance and the normalized similarity score used by the matcher.
//!
//! The score is the usual 0–100 integer similarity: with `m` the longer
//! length and `d` the edit distance, the score is `(m - d) * 100 / m`,
//! truncated; two empty strings score 100.

use vstd::prelude::*;
use vstd::arithmetic::div_mod::{lemma_div_is_ordered, lemma_div_multiples_vanish};
use vstd::arithmetic::mul::lemma_mul_inequality;

verus! {

pub open spec fn min3(a: int, b: int, c: int) -> int {
    if a <= b && a <= c {
        a
    } else if b <= c {
        b
    } else {
        c
    }
}

pub open spec fn max2(x: int, y: int) -> int {
    if x >= y {
        x
    } else {
        y
    }
}

/// The Levenshtein edit distance: the minimum number of character
/// insertions, deletions and substitutions that turns `a` into `b`.
pub open spec fn lev(a: Seq<char>, b: Seq<char>) -> int
    decreases a.len(), b.len(),
{
    if a.len() == 0 {
        b.len() as int
    } else if b.len() == 0 {
        a.len() as int
    } else {
        let cost: int = if a.last() == b.last() {
            0
        } else {
            1
        };
        min3(
            lev(a.drop_last(), b) + 1,
            lev(a, b.drop_last()) + 1,
            lev(a.drop_last(), b.drop_last()) + cost,
        )
    }
}

/// The edit distance never exceeds the longer length.
pub proof fn lemma_lev_le_max(a: Seq<char>, b: Seq<char>)
    ensures
        0 <= lev(a, b) <= max2(a.len() as int, b.len() as int),
    decreases a.len(), b.len(),
{
    if a.len() == 0 {
    } else if b.len() == 0 {
    } else {
        lemma_lev_le_max(a.drop_last(), b);
        lemma_lev_le_max(a, b.drop_last());
        lemma_lev_le_max(a.drop_last(), b.drop_last());
    }
}

/// Computes the edit distance between two character sequences.
pub fn levenshtein(a: &Vec<char>, b: &Vec<char>) -> (r: usize)
    ensures
        r == lev(a@, b@),
{
    let n = b.len();
    let mut prev: Vec<usize> = Vec::new();
    prev.push(0);
    let mut j: usize = 0;
    while j < n
        invariant
            j <= n,
            n == b@.len(),
            prev@.len() == j + 1,
            forall|k: int| 0 <= k <= j ==> prev@[k] == lev(Seq::<char>::empty(), b@.take(k)),
        decreases n - j,
    {
        j = j + 1;
        prev.push(j);
        proof {
            assert(b@.take(j as int).len() == j);
        }
    }
    let mut i: usize = 0;
    proof {
        assert(a@.take(0) =~= Seq::<char>::empty());
    }
    while i < a.len()
        invariant
            i <= a@.len(),
            n == b@.len(),
            prev@.len() == n + 1,
            forall|k: int| 0 <= k <= n ==> prev@[k] == lev(a@.take(i as int), b@.take(k)),
        decreases a@.len() - i,
    {
        i = i + 1;
        let mut curr: Vec<usize> = Vec::new();
        curr.push(i);
        proof {
            assert(b@.take(0) =~= Seq::<char>::empty());
            assert(a@.take(i as int).len() == i);
        }
        let mut j: usize = 0;
        while j < n
            invariant
                1 <= i <= a@.len(),
                j <= n,
                n == b@.len(),
                prev@.len() == n + 1,
                forall|k: int| 0 <= k <= n ==> prev@[k] == lev(a@.take(i - 1), b@.take(k)),
                curr@.len() == j + 1,
                forall|k: int| 0 <= k <= j ==> curr@[k] == lev(a@.take(i as int), b@.take(k)),
            decreases n - j,
        {
            j = j + 1;
            let cost: usize = if a[i - 1] == b[j - 1] {
                0
            } else {
                1
            };
            proof {
                lemma_lev_le_max(a@.take(i - 1), b@.take(j - 1));
            }
            let diag = prev[j - 1] + cost;
            let mut best = diag;
            if prev[j] < best {
                best = prev[j] + 1;
            }
            if curr[j - 1] < best {
                best = curr[j - 1] + 1;
            }
            proof {
                let aa = a@.take(i as int);
                let bb = b@.take(j as int);
                assert(aa.drop_last() =~= a@.take(i - 1));
                assert(bb.drop_last() =~= b@.take(j - 1));
                assert(aa.last() == a@[i - 1]);
                assert(bb.last() == b@[j - 1]);
                assert(best == min3(
                    lev(aa.drop_last(), bb) + 1,
                    lev(aa, bb.drop_last()) + 1,
                    lev(aa.drop_last(), bb.drop_last()) + (cost as int),
                ));
            }
            curr.push(best);
        }
        prev = curr;
    }
    proof {
        assert(a@.take(a@.len() as int) =~= a@);
        assert(b@.take(b@.len() as int) =~= b@);
    }
    prev[n]
}

/// The 0–100 similarity of two character sequences, truncated, as the
/// matcher scores candidate track titles.
pub open spec fn similarity_spec(a: Seq<char>, b: Seq<char>) -> int {
    if a.len() == 0 && b.len() == 0 {
        100
    } else {
        let m = max2(a.len() as int, b.len() as int);
        (m - lev(a, b)) * 100 / m
    }
}

pub fn similarity(a: &Vec<char>, b: &Vec<char>) -> (r: u8)
    ensures
        r == similarity_spec(a@, b@),
        r <= 100,
{
    if a.len() == 0 && b.len() == 0 {
        return 100;
    }
    let d = levenshtein(a, b);
    let m = if a.len() >= b.len() {
        a.len()
    } else {
        b.len()
    };
    proof {
        lemma_lev_le_max(a@, b@);
    }
    let num: u128 = ((m - d) as u128) * 100;
    let q: u128 = num / (m as u128);
    proof {
        lemma_similarity_in_range(a@, b@);
    }
    q as u8
}

/// The similarity score always lies between 0 and 100.
pub proof fn lemma_similarity_in_range(a: Seq<char>, b: Seq<char>)
    ensures
        0 <= similarity_spec(a, b) <= 100,
{
    if a.len() == 0 && b.len() == 0 {
    } else {
        let m = max2(a.len() as int, b.len() as int);
        let d = lev(a, b);
        lemma_lev_le_max(a, b);
        lemma_mul_inequality(m - d, m, 100);
        lemma_div_is_ordered((m - d) * 100, m * 100, m);
        lemma_div_multiples_vanish(100, m);
        assert(m * 100 == 100 * m) by (nonlinear_arith);
        assert((m - d) * 100 >= 0) by (nonlinear_arith)
            requires m - d >= 0;
        vstd::arithmetic::div_mod::lemma_div_pos_is_pos((m - d) * 100, m);
    }
}

} // verus!
