//! The mathematical model of a sequence of runs.
//!
//! A run is a token and the place in a sequence of tokens where it starts. It
//! has no length of its own: it lasts until the next run of its sequence
//! starts, and the last run lasts for ever. The token that a sequence of runs
//! gives to a place is that of the latest run that starts at or before it.

use vstd::prelude::*;

verus! {

/// A token and the place where it starts to be in effect.
pub struct Run<T> {
    pub token: T,
    pub start: nat,
}

/// Whether the runs start at strictly ascending places.
pub open spec fn ascending<T>(runs: Seq<Run<T>>) -> bool {
    forall|i: int, j: int| 0 <= i < j < runs.len() ==> runs[i].start < runs[j].start
}

/// Whether no run has the token of the run before it.
pub open spec fn merged<T>(runs: Seq<Run<T>>) -> bool {
    forall|i: int, j: int|
        0 <= i && j == i + 1 && j < runs.len() ==> runs[i].token != runs[j].token
}

/// Whether a sequence of runs is in order: ascending starts, and no two runs
/// in a row with the same token.
pub open spec fn well_formed<T>(runs: Seq<Run<T>>) -> bool {
    ascending(runs) && merged(runs)
}

/// Whether `run` can be merged into `tail`: it has the same token and does
/// not start before it.
pub open spec fn can_append<T>(tail: Run<T>, run: Run<T>) -> bool {
    tail.token == run.token && tail.start <= run.start
}

/// Whether `run` may follow `runs`: it merges into their last run, or starts
/// after it.
pub open spec fn accepts<T>(runs: Seq<Run<T>>, run: Run<T>) -> bool {
    runs.len() > 0 ==> can_append(runs.last(), run) || runs.last().start < run.start
}

/// The runs after `run` has been appended: unchanged where `run` merges into
/// the last of them, and one longer otherwise.
pub open spec fn append<T>(runs: Seq<Run<T>>, run: Run<T>) -> Seq<Run<T>> {
    if runs.len() > 0 && can_append(runs.last(), run) {
        runs
    } else {
        runs.push(run)
    }
}

/// The place in `runs` of the latest run that starts at or before `index`.
pub open spec fn covering<T>(runs: Seq<Run<T>>, index: nat) -> Option<int>
    decreases runs.len(),
{
    if runs.len() == 0 {
        None
    } else if runs.last().start <= index {
        Some(runs.len() - 1)
    } else {
        covering(runs.drop_last(), index)
    }
}

/// The token that `runs` give to the place `index`: that of the latest run
/// that starts at or before it.
pub open spec fn token_at<T>(runs: Seq<Run<T>>, index: nat) -> Option<T> {
    match covering(runs, index) {
        Some(k) => Some(runs[k].token),
        None => None,
    }
}

/// The runs that come of appending, in ascending order, the token of each
/// of the first `n` places of `tokens` that `keep` holds of.
pub open spec fn encode_kept<T>(tokens: Seq<T>, keep: spec_fn(int) -> bool, n: nat) -> Seq<Run<T>>
    decreases n,
{
    if n == 0 {
        Seq::empty()
    } else if keep(n - 1) {
        append(encode_kept(tokens, keep, (n - 1) as nat), Run { token: tokens[n - 1], start: (n - 1) as nat })
    } else {
        encode_kept(tokens, keep, (n - 1) as nat)
    }
}

/// The choice of places that leaves none out.
pub open spec fn everywhere() -> spec_fn(int) -> bool {
    |i: int| true
}

/// The runs that come of appending the tokens of a sequence one by one.
pub open spec fn encode<T>(tokens: Seq<T>) -> Seq<Run<T>> {
    encode_kept(tokens, everywhere(), tokens.len())
}

/// Appending a run that the sequence accepts keeps the sequence in order.
pub proof fn lemma_append_well_formed<T>(runs: Seq<Run<T>>, run: Run<T>)
    requires
        well_formed(runs),
        accepts(runs, run),
    ensures
        well_formed(append(runs, run)),
{
    let after = append(runs, run);
    if after != runs {
        assert forall|i: int, j: int| 0 <= i < j < after.len() implies after[i].start
            < after[j].start by {
            if j == runs.len() && i < runs.len() - 1 {
                assert(runs[i].start < runs[runs.len() - 1].start);
            }
        }
    }
}

/// Appending a run that merges into the last one leaves the number of runs
/// as it is, and appending any other run adds one to it.
pub proof fn lemma_append_len<T>(runs: Seq<Run<T>>, run: Run<T>)
    ensures
        runs.len() > 0 && can_append(runs.last(), run) ==> append(runs, run).len() == runs.len(),
        !(runs.len() > 0 && can_append(runs.last(), run)) ==> append(runs, run).len() == runs.len()
            + 1,
{
}

/// In an ascending sequence, the run that covers `index` is the one that
/// starts at or before it while the next one, if any, starts after it.
pub proof fn lemma_covering_found<T>(runs: Seq<Run<T>>, index: nat, k: int)
    requires
        ascending(runs),
        0 <= k < runs.len(),
        runs[k].start <= index,
        k + 1 < runs.len() ==> index < runs[k + 1].start,
    ensures
        covering(runs, index) == Some(k),
    decreases runs.len(),
{
    let last = runs.len() - 1;
    if runs.last().start <= index {
        if k < last {
            assert(runs[k + 1].start <= runs[last].start);
        }
    } else {
        let front = runs.drop_last();
        assert(ascending(front)) by {
            assert forall|i: int, j: int| 0 <= i < j < front.len() implies front[i].start
                < front[j].start by {
                assert(front[i] == runs[i] && front[j] == runs[j]);
            }
        }
        assert(front[k] == runs[k]);
        if k + 1 < front.len() {
            assert(front[k + 1] == runs[k + 1]);
        }
        lemma_covering_found(front, index, k);
    }
}

/// In an ascending sequence, no run covers a place before the first start.
pub proof fn lemma_covering_none<T>(runs: Seq<Run<T>>, index: nat)
    requires
        ascending(runs),
        runs.len() > 0 ==> index < runs[0].start,
    ensures
        covering(runs, index) is None,
    decreases runs.len(),
{
    if runs.len() > 0 {
        let last = runs.len() - 1;
        assert(runs[0].start <= runs[last].start);
        let front = runs.drop_last();
        assert(ascending(front)) by {
            assert forall|i: int, j: int| 0 <= i < j < front.len() implies front[i].start
                < front[j].start by {
                assert(front[i] == runs[i] && front[j] == runs[j]);
            }
        }
        if front.len() > 0 {
            assert(front[0] == runs[0]);
        }
        lemma_covering_none(front, index);
    }
}

/// The run that covers a place is in the sequence and starts at or before the
/// place.
pub proof fn lemma_covering_in_range<T>(runs: Seq<Run<T>>, index: nat)
    ensures
        covering(runs, index) matches Some(k) ==> 0 <= k < runs.len() && runs[k].start <= index,
    decreases runs.len(),
{
    if runs.len() > 0 && runs.last().start > index {
        lemma_covering_in_range(runs.drop_last(), index);
        let front = runs.drop_last();
        match covering(front, index) {
            Some(k) => {
                assert(front[k] == runs[k]);
            },
            None => {},
        }
    }
}

/// What an appended run changes: from its start on, every place has its
/// token; the places before its start keep theirs.
pub proof fn lemma_token_at_append<T>(runs: Seq<Run<T>>, run: Run<T>, index: nat)
    requires
        accepts(runs, run),
    ensures
        run.start <= index ==> token_at(append(runs, run), index) == Some(run.token),
        index < run.start ==> token_at(append(runs, run), index) == token_at(runs, index),
{
    let after = append(runs, run);
    if runs.len() > 0 && can_append(runs.last(), run) {
    } else {
        assert(after.last() == run);
        assert(after.drop_last() =~= runs);
        if index < run.start {
            lemma_covering_in_range(runs, index);
        }
    }
}

/// The runs that encode the first `n` tokens are in order and start before
/// `n`.
pub proof fn lemma_encode_kept_well_formed<T>(tokens: Seq<T>, keep: spec_fn(int) -> bool, n: nat)
    ensures
        well_formed(encode_kept(tokens, keep, n)),
        forall|k: int|
            0 <= k < encode_kept(tokens, keep, n).len() ==> (#[trigger] encode_kept(
                tokens,
                keep,
                n,
            )[k]).start < n,
        encode_kept(tokens, keep, n).len() <= n,
    decreases n,
{
    if n > 0 {
        let before = encode_kept(tokens, keep, (n - 1) as nat);
        lemma_encode_kept_well_formed(tokens, keep, (n - 1) as nat);
        if keep(n - 1) {
            let run = Run { token: tokens[n - 1], start: (n - 1) as nat };
            if before.len() > 0 {
                assert(before[before.len() - 1].start < n - 1);
            }
            lemma_append_well_formed(before, run);
        }
    }
}

/// A run may follow the runs that encode the first `n` tokens if it starts at
/// `n` or later.
pub proof fn lemma_encode_kept_accepts<T>(
    tokens: Seq<T>,
    keep: spec_fn(int) -> bool,
    n: nat,
    run: Run<T>,
)
    requires
        n <= run.start,
    ensures
        accepts(encode_kept(tokens, keep, n), run),
{
    lemma_encode_kept_well_formed(tokens, keep, n);
    let before = encode_kept(tokens, keep, n);
    if before.len() > 0 {
        assert(before[before.len() - 1].start < n);
    }
}

/// Decoding what was encoded: each place that was kept has its own token.
pub proof fn lemma_encode_kept_token_at<T>(
    tokens: Seq<T>,
    keep: spec_fn(int) -> bool,
    n: nat,
    index: nat,
)
    requires
        index < n,
        keep(index as int),
    ensures
        token_at(encode_kept(tokens, keep, n), index) == Some(tokens[index as int]),
    decreases n,
{
    let before = encode_kept(tokens, keep, (n - 1) as nat);
    if keep(n - 1) {
        let run = Run { token: tokens[n - 1], start: (n - 1) as nat };
        lemma_encode_kept_accepts(tokens, keep, (n - 1) as nat, run);
        lemma_token_at_append(before, run, index);
        if index < n - 1 {
            lemma_encode_kept_token_at(tokens, keep, (n - 1) as nat, index);
        }
    } else {
        lemma_encode_kept_token_at(tokens, keep, (n - 1) as nat, index);
    }
}

/// Decoding what was encoded: each place holds the token that was put there.
pub proof fn lemma_encode_token_at<T>(tokens: Seq<T>, index: nat)
    requires
        index < tokens.len(),
    ensures
        token_at(encode(tokens), index) == Some(tokens[index as int]),
{
    lemma_encode_kept_token_at(tokens, everywhere(), tokens.len(), index);
}

/// An ascending sequence of runs that all start before `bound` has at most
/// `bound` runs.
pub proof fn lemma_ascending_len<T>(runs: Seq<Run<T>>, bound: nat)
    requires
        ascending(runs),
        forall|k: int| 0 <= k < runs.len() ==> (#[trigger] runs[k]).start < bound,
    ensures
        runs.len() <= bound,
    decreases runs.len(),
{
    if runs.len() > 0 {
        let front = runs.drop_last();
        let last = runs.len() - 1;
        assert(runs[last].start < bound);
        assert forall|k: int| 0 <= k < front.len() implies (#[trigger] front[k]).start < bound
            - 1 by {
            assert(front[k] == runs[k]);
            assert(runs[k].start < runs[last].start);
        }
        assert(ascending(front)) by {
            assert forall|i: int, j: int| 0 <= i < j < front.len() implies front[i].start
                < front[j].start by {
                assert(front[i] == runs[i] && front[j] == runs[j]);
            }
        }
        lemma_ascending_len(front, (bound - 1) as nat);
    }
}

} // verus!
