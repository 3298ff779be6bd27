//! The decision policy: which first move to answer with.
//!
//! Each first move is a candidate with the greatest depth found anywhere in
//! its subtree. The policy takes the candidate that reaches deepest; of
//! several that reach equally deep, the one listed first. With no candidate
//! that reaches past depth 0 it falls back on Up.

use vstd::prelude::*;
use crate::schemas::BattleSnakeMove;

verus! {

/// A first move as the policy sees it, and also what it answers with: a direction,
/// the greatest depth reached by moving there, and whether food lies on the
/// cell moved to. The food flag is carried along and decides nothing.
#[derive(Debug, Clone, Copy, PartialEq, Eq, Structural)]
pub struct Choice {
    pub direction: BattleSnakeMove,
    pub depth: i32,
    pub food: bool,
}

/// The answer where no candidate wins: Up, at depth 0.
pub open spec fn fallback() -> Choice {
    Choice { direction: BattleSnakeMove::Up, depth: 0, food: false }
}

/// Whether the candidate at `index` wins: it reaches past depth 0, at least
/// as deep as every candidate, and deeper than every candidate before it.
pub open spec fn is_best(candidates: Seq<Choice>, index: int) -> bool {
    &&& 0 <= index < candidates.len()
    &&& candidates[index].depth > 0
    &&& forall|j: int| 0 <= j < candidates.len() ==> candidates[j].depth <= candidates[index].depth
    &&& forall|j: int| 0 <= j < index ==> candidates[j].depth < candidates[index].depth
}

/// The answer of the policy on `candidates`.
pub open spec fn best_of(candidates: Seq<Choice>) -> Choice {
    if exists|i: int| is_best(candidates, i) {
        candidates[choose|i: int| is_best(candidates, i)]
    } else {
        fallback()
    }
}

/// At most one candidate wins.
pub proof fn lemma_best_is_unique(candidates: Seq<Choice>, i: int, j: int)
    requires
        is_best(candidates, i),
        is_best(candidates, j),
    ensures
        i == j,
{
}

/// The answer is the winner where there is one.
pub proof fn lemma_best_of_winner(candidates: Seq<Choice>, i: int)
    requires
        is_best(candidates, i),
    ensures
        best_of(candidates) == candidates[i],
{
    lemma_best_is_unique(candidates, i, choose|k: int| is_best(candidates, k));
}

/// The answer is the fallback exactly where no candidate reaches past
/// depth 0, and otherwise one of the candidates.
pub proof fn lemma_best_of_cases(candidates: Seq<Choice>)
    ensures
        (forall|j: int| 0 <= j < candidates.len() ==> candidates[j].depth <= 0) ==> best_of(
            candidates,
        ) == fallback(),
        (exists|j: int| 0 <= j < candidates.len() && candidates[j].depth > 0) ==> exists|i: int|
            is_best(candidates, i) && best_of(candidates) == candidates[i],
{
    if exists|j: int| 0 <= j < candidates.len() && candidates[j].depth > 0 {
        let j = choose|j: int| 0 <= j < candidates.len() && candidates[j].depth > 0;
        lemma_winner_exists(candidates, candidates.len() as int, j);
        let i = choose|i: int| is_best(candidates, i);
        lemma_best_of_winner(candidates, i);
    } else {
        assert(forall|i: int| !is_best(candidates, i));
    }
}

/// The winner among the first `n` candidates.
spec fn winner_upto(candidates: Seq<Choice>, n: int) -> int
    decreases n,
{
    if n <= 0 {
        -1
    } else {
        let before = winner_upto(candidates, n - 1);
        let best_depth = if before < 0 {
            0
        } else {
            candidates[before].depth
        };
        if candidates[n - 1].depth > best_depth {
            n - 1
        } else {
            before
        }
    }
}

proof fn lemma_winner_upto(candidates: Seq<Choice>, n: int)
    requires
        0 <= n <= candidates.len(),
    ensures
        -1 <= winner_upto(candidates, n) < n,
        winner_upto(candidates, n) < 0 ==> forall|j: int| 0 <= j < n ==> candidates[j].depth <= 0,
        winner_upto(candidates, n) >= 0 ==> is_best(candidates.take(n), winner_upto(candidates, n)),
    decreases n,
{
    if n > 0 {
        lemma_winner_upto(candidates, n - 1);
        let before = winner_upto(candidates, n - 1);
        let now = winner_upto(candidates, n);
        let shorter = candidates.take(n - 1);
        let longer = candidates.take(n);
        assert forall|j: int| 0 <= j < n - 1 implies shorter[j] == longer[j] by {}
        if now >= 0 {
            if before >= 0 {
                assert(is_best(shorter, before));
                assert forall|j: int| 0 <= j < n - 1 implies longer[j].depth
                    <= shorter[before].depth by {
                    assert(shorter[j].depth <= shorter[before].depth);
                }
                assert forall|j: int| 0 <= j < before implies longer[j].depth
                    < shorter[before].depth by {
                    assert(shorter[j].depth < shorter[before].depth);
                }
            }
            assert(is_best(longer, now));
        }
    }
}

proof fn lemma_winner_exists(candidates: Seq<Choice>, n: int, j: int)
    requires
        n == candidates.len(),
        0 <= j < n,
        candidates[j].depth > 0,
    ensures
        exists|i: int| is_best(candidates, i),
{
    lemma_winner_upto(candidates, n);
    assert(candidates.take(n) == candidates);
    assert(is_best(candidates, winner_upto(candidates, n)));
}

/// The decision policy over a list of candidates.
pub fn pick_best(candidates: &Vec<Choice>) -> (best: Choice)
    ensures
        best == best_of(candidates@),
{
    let mut best = Choice { direction: BattleSnakeMove::Up, depth: 0, food: false };
    let ghost mut winner: int = -1;
    let mut i: usize = 0;
    while i < candidates.len()
        invariant
            i <= candidates.len(),
            winner == winner_upto(candidates@, i as int),
            best == if winner < 0 {
                fallback()
            } else {
                candidates@[winner]
            },
            -1 <= winner < i,
        decreases candidates.len() - i,
    {
        let next = candidates[i];
        if next.depth > best.depth {
            best = next;
            proof {
                winner = i as int;
            }
        }
        i += 1;
    }
    proof {
        lemma_winner_upto(candidates@, candidates@.len() as int);
        assert(candidates@.take(candidates@.len() as int) == candidates@);
        if winner >= 0 {
            lemma_best_of_winner(candidates@, winner);
        } else {
            lemma_best_of_cases(candidates@);
        }
    }
    best
}

/// The policy always names a real direction: if no candidate carries the
/// placeholder, neither does the answer.
pub proof fn lemma_answer_is_a_direction(candidates: Seq<Choice>)
    requires
        forall|j: int|
            0 <= j < candidates.len() ==> candidates[j].direction != BattleSnakeMove::NoMove,
    ensures
        best_of(candidates).direction != BattleSnakeMove::NoMove,
{
    lemma_best_of_cases(candidates);
}

/// The policy never prefers a shallower branch: the answer reaches at
/// least as deep as every candidate, and a candidate that another one
/// out-reaches is not the winner.
pub proof fn lemma_never_prefers_shallower(candidates: Seq<Choice>, deeper: int, shallower: int)
    requires
        0 <= deeper < candidates.len(),
        0 <= shallower < candidates.len(),
        candidates[deeper].depth > candidates[shallower].depth,
    ensures
        !is_best(candidates, shallower),
        best_of(candidates).depth >= candidates[deeper].depth,
{
    lemma_best_of_cases(candidates);
}

} // verus!
