//! The recognition strategy around the external text recognizer.
//!
//! The recognizer itself is an external engine driven by the host (it
//! works on files and is re-initialized per call). What lives here is
//! everything that can be decided from plain values: normalizing a raw
//! reading, reconciling the readings of one round by line-wise majority
//! vote, and choosing between the primary and the fallback reading of a
//! single attempt.

use vstd::prelude::*;

use crate::text::join_lines;
use crate::text::join_with_breaks;
use crate::text::lines_spec;
use crate::text::split_lines;
use crate::text::trim_spec;
use crate::text::trim_str;
use crate::vote::best_candidate;
use crate::vote::vote_winner;

verus! {

/// Why a recognition round yielded no text.
#[derive(Debug, Clone, Copy, PartialEq, Eq, Structural)]
pub enum OcrError {
    /// Both the primary and the fallback reading of one attempt failed.
    AllMethodsFailed,
    /// No attempt of the round produced non-blank text.
    AllAttemptsFailed,
}

/// The lines of `ls`, each trimmed, with blank lines dropped.
pub open spec fn nonblank_trimmed(ls: Seq<Seq<char>>) -> Seq<Seq<char>>
    decreases ls.len(),
{
    if ls.len() == 0 {
        Seq::empty()
    } else {
        let rest = nonblank_trimmed(ls.drop_last());
        if trim_spec(ls.last()).len() > 0 {
            rest.push(trim_spec(ls.last()))
        } else {
            rest
        }
    }
}

/// A reading normalized for comparison: each line trimmed, blank lines
/// dropped, the rest joined with single line breaks.
pub open spec fn normalize_spec(s: Seq<char>) -> Seq<char> {
    join_lines(nonblank_trimmed(lines_spec(s)))
}

/// The candidate readings for line `i`: from each reading that has a
/// line `i`, its trimmed line `i`, blank ones left out, in reading order.
pub open spec fn cands_at(rs: Seq<Seq<char>>, i: int) -> Seq<Seq<char>>
    decreases rs.len(),
{
    if rs.len() == 0 {
        Seq::empty()
    } else {
        let rest = cands_at(rs.drop_last(), i);
        let ls = lines_spec(rs.last());
        if 0 <= i < ls.len() && trim_spec(ls[i]).len() > 0 {
            rest.push(trim_spec(ls[i]))
        } else {
            rest
        }
    }
}

/// The largest line count among the readings.
pub open spec fn max_lines(rs: Seq<Seq<char>>) -> nat
    decreases rs.len(),
{
    if rs.len() == 0 {
        0
    } else {
        let m = max_lines(rs.drop_last());
        if lines_spec(rs.last()).len() > m {
            lines_spec(rs.last()).len()
        } else {
            m
        }
    }
}

/// The winning line for each index below `n` that has any candidate,
/// in index order.
pub open spec fn winners_upto(rs: Seq<Seq<char>>, n: int) -> Seq<Seq<char>>
    decreases n,
{
    if n <= 0 {
        Seq::empty()
    } else {
        let rest = winners_upto(rs, n - 1);
        if cands_at(rs, n - 1).len() > 0 {
            rest.push(vote_winner(cands_at(rs, n - 1)))
        } else {
            rest
        }
    }
}

/// The reconciled text of several readings: the line-wise majority vote,
/// winners joined with line breaks.
pub open spec fn select_spec(rs: Seq<Seq<char>>) -> Seq<char> {
    join_lines(winners_upto(rs, max_lines(rs) as int))
}

/// The readings of a round that count: present and not blank.
pub open spec fn successful(attempts: Seq<Option<Seq<char>>>) -> Seq<Seq<char>>
    decreases attempts.len(),
{
    if attempts.len() == 0 {
        Seq::empty()
    } else {
        let rest = successful(attempts.drop_last());
        if attempts.last() matches Some(t) && trim_spec(t).len() > 0 {
            rest.push(attempts.last()->0)
        } else {
            rest
        }
    }
}

/// What one recognition round returns: the single successful reading
/// verbatim, the majority vote of several, or the round error.
pub open spec fn round_result(attempts: Seq<Option<Seq<char>>>) -> Result<Seq<char>, OcrError> {
    let succ = successful(attempts);
    if succ.len() == 0 {
        Err(OcrError::AllAttemptsFailed)
    } else if succ.len() == 1 {
        Ok(succ[0])
    } else {
        Ok(select_spec(succ))
    }
}

/// The decision layer of the text recognizer.
///
/// The external engine is not held here: it is re-initialized by the
/// host for every call, because its native state is not safe to reuse
/// across images. This type owns what is decidable without the engine.
pub struct OcrEngine {}

impl OcrEngine {
    /// Makes the decision layer. Probing the external engine is the
    /// host's duty, done where the engine is driven.
    pub fn new() -> (r: Self) {
        Self {  }
    }

    /// Normalizes a raw reading: trims each line, drops blank lines, and
    /// joins the rest with single line breaks.
    pub fn normalize_text(&self, text: &str) -> (r: String)
        ensures
            r@ == normalize_spec(text@),
    {
        let ls = split_lines(text);
        let mut keep: Vec<String> = Vec::new();
        let mut i: usize = 0;
        proof {
            assert(ls.deep_view().take(0) =~~= Seq::<Seq<char>>::empty());
        }
        while i < ls.len()
            invariant
                i <= ls.len(),
                keep.deep_view() == nonblank_trimmed(ls.deep_view().take(i as int)),
            decreases ls.len() - i,
        {
            let ghost pre = keep.deep_view();
            let t = trim_str(ls[i].as_str());
            if !t.as_str().is_empty() {
                keep.push(t);
                proof {
                    assert(keep.deep_view() =~~= pre.push(trim_spec(ls.deep_view()[i as int])));
                }
            }
            proof {
                let dv = ls.deep_view();
                assert(dv.take(i + 1).drop_last() =~= dv.take(i as int));
                assert(dv.take(i + 1).last() == dv[i as int]);
            }
            i = i + 1;
        }
        proof {
            assert(ls.deep_view().take(ls.len() as int) =~= ls.deep_view());
        }
        join_with_breaks(&keep)
    }

    /// Reconciles several readings line by line: for each line index, the
    /// most frequent non-blank trimmed reading wins, ties keeping the one
    /// seen first; the winners are joined with line breaks.
    pub fn select_best_result(&self, results: &Vec<String>) -> (r: String)
        ensures
            r@ == select_spec(results.deep_view()),
    {
        let ghost dv = results.deep_view();
        let mut max: usize = 0;
        let mut k: usize = 0;
        proof {
            assert(dv.take(0) =~~= Seq::<Seq<char>>::empty());
        }
        while k < results.len()
            invariant
                k <= results.len(),
                dv == results.deep_view(),
                max == max_lines(dv.take(k as int)),
            decreases results.len() - k,
        {
            let ls = split_lines(results[k].as_str());
            if ls.len() > max {
                max = ls.len();
            }
            proof {
                assert(dv.take(k + 1).drop_last() =~= dv.take(k as int));
                assert(dv.take(k + 1).last() == dv[k as int]);
            }
            k = k + 1;
        }
        proof {
            assert(dv.take(results.len() as int) =~= dv);
        }

        let mut winners: Vec<String> = Vec::new();
        let mut line_idx: usize = 0;
        while line_idx < max
            invariant
                line_idx <= max,
                dv == results.deep_view(),
                max == max_lines(dv),
                winners.deep_view() == winners_upto(dv, line_idx as int),
            decreases max - line_idx,
        {
            let ghost wpre = winners.deep_view();
            let mut cands: Vec<String> = Vec::new();
            let mut j: usize = 0;
            proof {
                assert(dv.take(0) =~~= Seq::<Seq<char>>::empty());
            }
            while j < results.len()
                invariant
                    j <= results.len(),
                    dv == results.deep_view(),
                    cands.deep_view() == cands_at(dv.take(j as int), line_idx as int),
                decreases results.len() - j,
            {
                let ghost cpre = cands.deep_view();
                let ls = split_lines(results[j].as_str());
                if line_idx < ls.len() {
                    let t = trim_str(ls[line_idx].as_str());
                    if !t.as_str().is_empty() {
                        cands.push(t);
                        proof {
                            assert(cands.deep_view() =~~= cpre.push(
                                trim_spec(lines_spec(dv[j as int])[line_idx as int]),
                            ));
                        }
                    }
                }
                proof {
                    assert(dv.take(j + 1).drop_last() =~= dv.take(j as int));
                    assert(dv.take(j + 1).last() == dv[j as int]);
                }
                j = j + 1;
            }
            proof {
                assert(dv.take(results.len() as int) =~= dv);
            }
            if cands.len() > 0 {
                let w = best_candidate(&cands);
                winners.push(w);
                proof {
                    assert(winners.deep_view() =~~= wpre.push(
                        vote_winner(cands_at(dv, line_idx as int)),
                    ));
                }
            }
            line_idx = line_idx + 1;
        }
        join_with_breaks(&winners)
    }

    /// Reconciles the outcomes of one round of attempts (an entry is
    /// `None` when that attempt failed): no usable reading fails the
    /// round, a single one is returned verbatim, several are put to the
    /// line-wise vote.
    pub fn reconcile_attempts(&self, attempts: &Vec<Option<String>>) -> (r: Result<
        String,
        OcrError,
    >)
        ensures
            round_result(attempts.deep_view()) matches Ok(t) ==> r matches Ok(s) && s@ == t,
            round_result(attempts.deep_view()) matches Err(e) ==> r == Err::<String, OcrError>(e),
    {
        let ghost av = attempts.deep_view();
        let mut results: Vec<String> = Vec::new();
        let mut i: usize = 0;
        proof {
            assert(av.take(0) =~~= Seq::<Option<Seq<char>>>::empty());
        }
        while i < attempts.len()
            invariant
                i <= attempts.len(),
                av == attempts.deep_view(),
                results.deep_view() == successful(av.take(i as int)),
            decreases attempts.len() - i,
        {
            let ghost pre = results.deep_view();
            match &attempts[i] {
                Some(text) => {
                    let t = trim_str(text.as_str());
                    if !t.as_str().is_empty() {
                        results.push(text.clone());
                        proof {
                            assert(results.deep_view() =~~= pre.push(av[i as int]->0));
                        }
                    }
                },
                None => {},
            }
            proof {
                assert(av.take(i + 1).drop_last() =~= av.take(i as int));
                assert(av.take(i + 1).last() == av[i as int]);
            }
            i = i + 1;
        }
        proof {
            assert(av.take(attempts.len() as int) =~= av);
        }
        if results.len() == 0 {
            Err(OcrError::AllAttemptsFailed)
        } else if results.len() == 1 {
            Ok(results[0].clone())
        } else {
            Ok(self.select_best_result(&results))
        }
    }

    /// The fallback decision of one attempt: the primary reading when it
    /// exists, otherwise the reading from the downscaled retry, otherwise
    /// the attempt fails.
    pub fn resolve_fallback(&self, primary: Option<String>, retry: Option<String>) -> (r: Result<
        String,
        OcrError,
    >)
        ensures
            primary matches Some(t) ==> r == Ok::<String, OcrError>(t),
            primary is None ==> (retry matches Some(t) ==> r == Ok::<String, OcrError>(t)),
            primary is None && retry is None ==> r == Err::<String, OcrError>(
                OcrError::AllMethodsFailed,
            ),
    {
        match primary {
            Some(t) => Ok(t),
            None => match retry {
                Some(t) => Ok(t),
                None => Err(OcrError::AllMethodsFailed),
            },
        }
    }
}

} // verus!
