//! Settlement of a race over concurrent awaitables.
//!
//! When several branches of an `any`-style combinator become eligible in the
//! same tick, exactly one — the first registered — wins; every other branch
//! is cancelled before any of its continuation code could run. With no
//! eligible branch, all stay pending.

use vstd::prelude::*;

verus! {

/// The fate of one branch after a settlement pass.
#[derive(Clone, Copy, Debug, PartialEq, Eq, Structural)]
pub enum BranchStatus {
    /// Still waiting; no branch was eligible this pass.
    Pending,
    /// This branch won the race and its continuation runs.
    Won,
    /// A sibling won; this branch was cancelled.
    Cancelled,
}

/// How many branches won.
pub open spec fn count_won(s: Seq<BranchStatus>) -> int
    decreases s.len(),
{
    if s.len() == 0 {
        0
    } else {
        count_won(s.drop_last()) + if s.last() == BranchStatus::Won {
            1int
        } else {
            0int
        }
    }
}

/// Settles one pass of a race: `eligible[i]` says whether branch `i` may
/// resolve this tick. The first eligible branch wins; every other branch is
/// cancelled; with no eligible branch, every branch stays pending.
pub fn settle_race(eligible: &Vec<bool>) -> (r: (Option<usize>, Vec<BranchStatus>))
    ensures
        r.1@.len() == eligible@.len(),
        match r.0 {
            Some(w) => {
                &&& 0 <= (w as int) < eligible@.len()
                &&& eligible@[w as int]
                &&& forall|k: int| 0 <= k < w as int ==> !eligible@[k]
                &&& r.1@[w as int] == BranchStatus::Won
                &&& forall|j: int|
                    0 <= j < eligible@.len() && j != w as int ==> r.1@[j]
                        == BranchStatus::Cancelled
            },
            None => {
                &&& forall|k: int| 0 <= k < eligible@.len() ==> !eligible@[k]
                &&& forall|j: int| 0 <= j < eligible@.len() ==> r.1@[j] == BranchStatus::Pending
            },
        },
{
    let n = eligible.len();
    let mut winner: Option<usize> = None;
    let mut i: usize = 0;
    while i < n && winner.is_none()
        invariant
            i <= n,
            n == eligible@.len(),
            match winner {
                None => forall|k: int| 0 <= k < i ==> !eligible@[k],
                Some(w) => {
                    &&& (w as int) < n
                    &&& eligible@[w as int]
                    &&& forall|k: int| 0 <= k < w as int ==> !eligible@[k]
                },
            },
        decreases n - i, (if winner is None { 1int } else { 0int }),
    {
        if eligible[i] {
            winner = Some(i);
        } else {
            i = i + 1;
        }
    }
    let mut statuses: Vec<BranchStatus> = Vec::new();
    let mut j: usize = 0;
    while j < n
        invariant
            j <= n,
            n == eligible@.len(),
            statuses@.len() == j,
            match winner {
                Some(w) => {
                    &&& 0 <= (w as int) < n
                    &&& eligible@[w as int]
                    &&& forall|k: int| 0 <= k < w as int ==> !eligible@[k]
                    &&& forall|k: int|
                        0 <= k < j ==> statuses@[k] == if k == w as int {
                            BranchStatus::Won
                        } else {
                            BranchStatus::Cancelled
                        }
                },
                None => {
                    &&& forall|k: int| 0 <= k < n ==> !eligible@[k]
                    &&& forall|k: int| 0 <= k < j ==> statuses@[k] == BranchStatus::Pending
                },
            },
        decreases n - j,
    {
        let status = match winner {
            Some(w) => if j == w {
                BranchStatus::Won
            } else {
                BranchStatus::Cancelled
            },
            None => BranchStatus::Pending,
        };
        statuses.push(status);
        j = j + 1;
    }
    (winner, statuses)
}

/// A settled race has exactly one winner: one branch `Won`, every other
/// branch `Cancelled`, never two winners and never a still-pending loser.
pub proof fn lemma_race_single_winner(s: Seq<BranchStatus>, w: int)
    requires
        0 <= w < s.len(),
        s[w] == BranchStatus::Won,
        forall|j: int| 0 <= j < s.len() && j != w ==> s[j] == BranchStatus::Cancelled,
    ensures
        count_won(s) == 1,
    decreases s.len(),
{
    let d = s.drop_last();
    if w == s.len() - 1 {
        lemma_race_all_cancelled(d);
    } else {
        assert(forall|j: int| 0 <= j < d.len() && j != w ==> d[j] == s[j]);
        assert(d[w] == s[w]);
        lemma_race_single_winner(d, w);
    }
}

/// A sequence of cancelled branches holds no winner.
pub proof fn lemma_race_all_cancelled(s: Seq<BranchStatus>)
    requires
        forall|j: int| 0 <= j < s.len() ==> s[j] == BranchStatus::Cancelled,
    ensures
        count_won(s) == 0,
    decreases s.len(),
{
    if s.len() > 0 {
        assert(forall|j: int| 0 <= j < s.drop_last().len() ==> s.drop_last()[j] == s[j]);
        lemma_race_all_cancelled(s.drop_last());
    }
}

} // verus!
