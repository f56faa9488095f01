//! Line-wise majority voting across repeated recognition attempts.
//!
//! Given the candidate readings of one line, the winner is the reading
//! with the most occurrences; a tie keeps the reading seen first.

use vstd::prelude::*;

verus! {

/// How many elements of `cands` equal `x`.
pub open spec fn count_of(cands: Seq<Seq<char>>, x: Seq<char>) -> nat
    decreases cands.len(),
{
    if cands.len() == 0 {
        0
    } else {
        count_of(cands.drop_last(), x) + if cands.last() == x {
            1nat
        } else {
            0nat
        }
    }
}

/// The running vote: scanning `cands` from index `i` with current best
/// `best`, replace the best whenever a candidate has strictly more
/// occurrences. Ties keep the earlier best, so the first-seen reading of
/// a winning count prevails.
pub open spec fn vote_from(cands: Seq<Seq<char>>, i: int, best: Seq<char>) -> Seq<char>
    decreases cands.len() - i,
{
    if i < cands.len() {
        vote_from(
            cands,
            i + 1,
            if count_of(cands, cands[i]) > count_of(cands, best) {
                cands[i]
            } else {
                best
            },
        )
    } else {
        best
    }
}

/// The most frequent element of `cands`, first-seen order breaking ties.
pub open spec fn vote_winner(cands: Seq<Seq<char>>) -> Seq<char>
    recommends
        cands.len() > 0,
{
    vote_from(cands, 1, cands[0])
}

proof fn lemma_vote_from_props(cands: Seq<Seq<char>>, j: int, best: Seq<char>)
    requires
        0 <= j,
        cands.contains(best),
    ensures
        cands.contains(vote_from(cands, j, best)),
        count_of(cands, vote_from(cands, j, best)) >= count_of(cands, best),
        forall|k: int|
            j <= k < cands.len() ==> count_of(cands, vote_from(cands, j, best)) >= count_of(
                cands,
                cands[k],
            ),
    decreases cands.len() - j,
{
    if j < cands.len() {
        let next = if count_of(cands, cands[j]) > count_of(cands, best) {
            cands[j]
        } else {
            best
        };
        assert(cands.contains(cands[j]));
        lemma_vote_from_props(cands, j + 1, next);
    }
}

/// The vote's law: the winner occurs among the candidates, and no
/// candidate occurs strictly more often than it.
pub proof fn lemma_vote_winner_most_frequent(cands: Seq<Seq<char>>)
    requires
        cands.len() > 0,
    ensures
        cands.contains(vote_winner(cands)),
        forall|k: int|
            0 <= k < cands.len() ==> count_of(cands, vote_winner(cands)) >= count_of(
                cands,
                cands[k],
            ),
{
    lemma_vote_from_props(cands, 1, cands[0]);
}

/// Counts the occurrences of `x` in `cands`.
pub fn count_matches(cands: &Vec<String>, x: &String) -> (r: usize)
    ensures
        r == count_of(cands.deep_view(), x@),
{
    let mut r: usize = 0;
    let mut i: usize = 0;
    proof {
        assert(cands.deep_view().take(0) =~~= Seq::<Seq<char>>::empty());
    }
    while i < cands.len()
        invariant
            i <= cands.len(),
            r <= i,
            r == count_of(cands.deep_view().take(i as int), x@),
        decreases cands.len() - i,
    {
        let cand: &String = &cands[i];
        if cand.eq(x) {
            r = r + 1;
        }
        proof {
            let dv = cands.deep_view();
            assert(dv.take(i + 1).drop_last() =~= dv.take(i as int));
            assert(dv.take(i + 1).last() == dv[i as int]);
        }
        i = i + 1;
    }
    proof {
        assert(cands.deep_view().take(cands.len() as int) =~= cands.deep_view());
    }
    r
}

/// Picks the winning candidate. The scan mirrors `vote_from`: a later
/// candidate replaces the best only with strictly more occurrences.
pub fn best_candidate(cands: &Vec<String>) -> (r: String)
    requires
        cands.len() > 0,
    ensures
        r@ == vote_winner(cands.deep_view()),
{
    let mut best: String = cands[0].clone();
    let mut i: usize = 1;
    while i < cands.len()
        invariant
            1 <= i <= cands.len(),
            cands.len() > 0,
            vote_winner(cands.deep_view()) == vote_from(cands.deep_view(), i as int, best@),
        decreases cands.len() - i,
    {
        let cnt_i = count_matches(cands, &cands[i]);
        let cnt_b = count_matches(cands, &best);
        if cnt_i > cnt_b {
            best = cands[i].clone();
        }
        i = i + 1;
    }
    best
}

} // verus!
