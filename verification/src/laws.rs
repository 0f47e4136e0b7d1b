//! Proved properties of the scorer, stated over the spec functions that the
//! executable contracts use.

use vstd::prelude::*;

use crate::chars::chars_eq;
use crate::consts::{SCORE_MAX, SCORE_MIN};
use crate::score::{d_val, lemma_dp_bounded, scored, spec_score, Score};

verus! {

/// A non-empty needle scored against itself takes the maximum sentinel:
/// the lengths are equal, so the exact-match fast path fires.
pub proof fn lemma_score_self(n: Seq<char>)
    requires
        n.len() > 0,
    ensures
        spec_score(n, n) == SCORE_MAX as int,
{
}

/// Every score of machine-representable strings is a finite integer between
/// the two sentinels, so any two scores are comparable by integer order.
pub proof fn lemma_score_in_range(n: Seq<char>, h: Seq<char>)
    requires
        n.len() <= usize::MAX,
        h.len() <= usize::MAX,
    ensures
        SCORE_MIN as int <= spec_score(n, h) <= SCORE_MAX as int,
{
    if n.len() != 0 && n.len() != h.len() && h.len() != 0 {
        lemma_dp_bounded(n, h, n.len() - 1, h.len() - 1);
    }
}

/// An empty needle scores the minimum sentinel against every haystack.
pub proof fn lemma_score_empty_needle(h: Seq<char>)
    ensures
        spec_score(Seq::<char>::empty(), h) == SCORE_MIN as int,
{
}

/// A non-empty needle scores the minimum sentinel against an empty
/// haystack: no match is possible.
pub proof fn lemma_score_empty_haystack(n: Seq<char>)
    requires
        n.len() > 0,
    ensures
        spec_score(n, Seq::<char>::empty()) == SCORE_MIN as int,
{
}

/// A valid `D` cell really is a match point: when `D[i][j]` is not the
/// sentinel, needle character `i` matches haystack character `j` under the
/// case-insensitive predicate.
pub proof fn lemma_d_val_match(n: Seq<char>, h: Seq<char>, i: int, j: int)
    requires
        d_val(n, h, i, j) != SCORE_MIN as int,
    ensures
        chars_eq(n[i], h[j]),
{
}

/// The scorer is deterministic: two results that both satisfy the
/// `with_positions` contract for the same needle and haystack agree on the
/// score and on the positions. There is no hidden state to diverge on.
pub proof fn lemma_scorer_deterministic(n: Seq<char>, h: Seq<char>, a: Score, b: Score)
    requires
        scored(n, h, a),
        scored(n, h, b),
    ensures
        a.value == b.value,
        a.positions is Some <==> b.positions is Some,
        a.positions is Some && b.positions is Some ==> a.positions.unwrap()@
            == b.positions.unwrap()@,
{
    if a.positions is Some && b.positions is Some {
        assert(a.positions.unwrap()@ =~= b.positions.unwrap()@);
    }
}

} // verus!
