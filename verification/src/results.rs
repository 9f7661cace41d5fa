//! The best stored run of every test.

use crate::text::same_text;
use vstd::prelude::*;

verus! {

/// One stored run, reduced to what decides which run is best.
#[derive(Debug)]
pub struct ScoredRun {
    /// The test that was run.
    pub test_name: String,
    /// The throughput of the run, as a number that is larger for a higher
    /// throughput.
    pub score: u64,
}

/// The run at position `i` is the best of its test: no earlier run of the
/// same test scored as much, and no later one scored more. Of runs that
/// score the same, the earliest is the best.
pub open spec fn is_best(runs: Seq<ScoredRun>, i: int) -> bool {
    &&& 0 <= i < runs.len()
    &&& forall|j: int|
        0 <= j < i && #[trigger] runs[j].test_name@ == runs[i].test_name@ ==> runs[j].score
            < runs[i].score
    &&& forall|j: int|
        i < j < runs.len() && #[trigger] runs[j].test_name@ == runs[i].test_name@
            ==> runs[j].score <= runs[i].score
}

/// The positions below `upto` of the runs that are the best of their test,
/// in ascending order.
pub open spec fn best_below(runs: Seq<ScoredRun>, upto: int) -> Seq<usize>
    decreases upto,
{
    if upto <= 0 {
        Seq::empty()
    } else if is_best(runs, upto - 1) {
        best_below(runs, upto - 1).push((upto - 1) as usize)
    } else {
        best_below(runs, upto - 1)
    }
}

/// Whether the run at position `i` is the best of its test.
pub fn leads(runs: &Vec<ScoredRun>, i: usize) -> (best: bool)
    ensures
        best == is_best(runs@, i as int),
{
    if i >= runs.len() {
        return false;
    }
    let mut j: usize = 0;
    while j < runs.len()
        invariant
            i < runs@.len(),
            j <= runs@.len(),
            forall|k: int|
                0 <= k < j && k < i && #[trigger] runs@[k].test_name@ == runs@[i as int].test_name@
                    ==> runs@[k].score < runs@[i as int].score,
            forall|k: int|
                i < k < j && #[trigger] runs@[k].test_name@ == runs@[i as int].test_name@
                    ==> runs@[k].score <= runs@[i as int].score,
        decreases runs@.len() - j,
    {
        if j != i && same_text(runs[j].test_name.as_str(), runs[i].test_name.as_str()) {
            if j < i && runs[j].score >= runs[i].score {
                return false;
            }
            if j > i && runs[j].score > runs[i].score {
                return false;
            }
        }
        j += 1;
    }
    true
}

/// Picks, for every test, its best run: the one with the highest score, and
/// of several with that score the earliest. The result lists the positions of
/// these runs in ascending order.
pub fn best_runs(runs: &Vec<ScoredRun>) -> (best: Vec<usize>)
    ensures
        best@ == best_below(runs@, runs@.len() as int),
{
    let mut best: Vec<usize> = Vec::new();
    let mut i: usize = 0;
    while i < runs.len()
        invariant
            i <= runs@.len(),
            best@ == best_below(runs@, i as int),
        decreases runs@.len() - i,
    {
        if leads(runs, i) {
            best.push(i);
        }
        i += 1;
    }
    best
}

/// Every test that has a run has exactly one best run.
pub proof fn lemma_one_best_per_test(runs: Seq<ScoredRun>, i: int, j: int)
    requires
        is_best(runs, i),
        is_best(runs, j),
        runs[i].test_name@ == runs[j].test_name@,
    ensures
        i == j,
{
}

/// The best run of a test scores at least as much as every run of that test.
pub proof fn lemma_best_is_highest(runs: Seq<ScoredRun>, i: int, j: int)
    requires
        is_best(runs, i),
        0 <= j < runs.len(),
        runs[j].test_name@ == runs[i].test_name@,
    ensures
        runs[j].score <= runs[i].score,
{
}

/// The positions listed are exactly those of the best runs.
pub proof fn lemma_best_below(runs: Seq<ScoredRun>, upto: int, i: usize)
    requires
        0 <= upto <= runs.len() <= usize::MAX,
    ensures
        best_below(runs, upto).contains(i) <==> i < upto && is_best(runs, i as int),
    decreases upto,
{
    if upto > 0 {
        lemma_best_below(runs, upto - 1, i);
        let before = best_below(runs, upto - 1);
        if is_best(runs, upto - 1) {
            let now = before.push((upto - 1) as usize);
            if now.contains(i) {
                let k = choose|k: int| 0 <= k < now.len() && now[k] == i;
                if k < before.len() {
                    assert(before[k] == i);
                }
            }
            if i < upto && is_best(runs, i as int) {
                if i == upto - 1 {
                    assert(now[now.len() - 1] == i);
                } else {
                    let k = choose|k: int| 0 <= k < before.len() && before[k] == i;
                    assert(now[k] == i);
                }
            }
        }
    }
}

} // verus!
