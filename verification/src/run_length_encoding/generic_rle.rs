//! Run length encoding of a sequence of tokens of any type that can be
//! compared for equality.

use vstd::prelude::*;
use vstd::laws_eq::obeys_concrete_eq;
use vstd::layout::layout_for_type_is_valid;
use vstd::layout::size_of;
use rle::AppendRle;
use rle::MergableSpan;
use crate::run_length_encoding::runs::accepts;
use crate::run_length_encoding::runs::append;
use crate::run_length_encoding::runs::ascending;
use crate::run_length_encoding::runs::can_append;
use crate::run_length_encoding::runs::lemma_append_well_formed;
use crate::run_length_encoding::runs::lemma_covering_found;
use crate::run_length_encoding::runs::lemma_covering_none;
use crate::run_length_encoding::runs::token_at;
use crate::run_length_encoding::runs::well_formed;
use crate::run_length_encoding::runs::Run;

verus! {

/// A type whose values name the places of a sequence.
pub trait SequenceIndex: Copy {
    /// The place that this value names.
    spec fn position(&self) -> nat;

    /// Whether this value names an earlier place than `other` does.
    fn precedes(&self, other: &Self) -> (before: bool)
        ensures
            before == (self.position() < other.position()),
    ;

    /// Whether this value names the same place as `other` does.
    fn coincides(&self, other: &Self) -> (same: bool)
        ensures
            same == (self.position() == other.position()),
    ;
}

impl SequenceIndex for u8 {
    open spec fn position(&self) -> nat {
        *self as nat
    }

    fn precedes(&self, other: &Self) -> (before: bool) {
        *self < *other
    }

    fn coincides(&self, other: &Self) -> (same: bool) {
        *self == *other
    }
}

impl SequenceIndex for u16 {
    open spec fn position(&self) -> nat {
        *self as nat
    }

    fn precedes(&self, other: &Self) -> (before: bool) {
        *self < *other
    }

    fn coincides(&self, other: &Self) -> (same: bool) {
        *self == *other
    }
}

impl SequenceIndex for u32 {
    open spec fn position(&self) -> nat {
        *self as nat
    }

    fn precedes(&self, other: &Self) -> (before: bool) {
        *self < *other
    }

    fn coincides(&self, other: &Self) -> (same: bool) {
        *self == *other
    }
}

impl SequenceIndex for u64 {
    open spec fn position(&self) -> nat {
        *self as nat
    }

    fn precedes(&self, other: &Self) -> (before: bool) {
        *self < *other
    }

    fn coincides(&self, other: &Self) -> (same: bool) {
        *self == *other
    }
}

impl SequenceIndex for usize {
    open spec fn position(&self) -> nat {
        *self as nat
    }

    fn precedes(&self, other: &Self) -> (before: bool) {
        *self < *other
    }

    fn coincides(&self, other: &Self) -> (same: bool) {
        *self == *other
    }
}

/// Represents an individual run of a specific token.
///
/// Individual runs are of indefinite length by themselves. The end of the run
/// is dictated by the start value of the next run in the sequence.
///
/// Type `T` is the token value that is encoded. Type `S` is the sequence index
/// type; a smaller type than the default saves space where the sequences are
/// short.
#[derive(Clone)]
pub struct IndexedRLE<T, S = usize> {
    pub token: T,
    pub start: S,
}

impl<T, S: SequenceIndex> IndexedRLE<T, S> {
    /// The run that this value stands for.
    pub open spec fn run(&self) -> Run<T> {
        Run { token: self.token, start: self.start.position() }
    }
}

impl<T: Clone + Eq, S: SequenceIndex> MergableSpan for IndexedRLE<T, S> {
    /// Whether `other` has the token of this run and does not start before it.
    fn can_append(&self, other: &Self) -> (mergeable: bool)
        ensures
            obeys_concrete_eq::<T>() ==> mergeable == can_append(self.run(), other.run()),
    {
        proof {
            reveal(obeys_concrete_eq);
        }
        self.token == other.token && !other.start.precedes(&self.start)
    }

    /// Merges `other` into this run, which leaves this run as it is: a run
    /// lasts until the next one starts.
    fn append(&mut self, other: Self)
        ensures
            *final(self) == *old(self),
    {
    }

    /// Merges `other` in front of this run: the run then starts where the
    /// earlier of the two starts.
    fn prepend(&mut self, other: Self)
        ensures
            final(self).token == old(self).token,
            final(self).start == if other.start.position() < old(self).start.position() {
                other.start
            } else {
                old(self).start
            },
    {
        if other.start.precedes(&self.start) {
            self.start = other.start;
        }
    }
}

impl<T: Clone + Eq, S> IndexedRLE<T, S> {
    /// A run of `token` that starts at `start`.
    pub fn new(token: T, start: S) -> (run: Self)
        ensures
            run.token == token,
            run.start == start,
    {
        Self { token, start }
    }

    /// The amount of memory it takes to store this data.
    pub fn memory_size(&self) -> (bytes: usize)
        ensures
            bytes == size_of::<T>() + size_of::<S>(),
    {
        layout_for_type_is_valid::<T>();
        layout_for_type_is_valid::<S>();
        core::mem::size_of::<T>() + core::mem::size_of::<S>()
    }
}

/// Calls `push_rle` of the `rle` crate on a vector of runs. It asks the last
/// run of the vector, if there is one, whether it `can_append` the new run; if
/// so it has the last run `append` it, which changes nothing, and returns
/// true. Otherwise it pushes the new run to the vector and returns false.
#[verifier::external_body]
fn push_rle<T: Clone + Eq, S: SequenceIndex>(
    runs: &mut Vec<IndexedRLE<T, S>>,
    run: IndexedRLE<T, S>,
) -> (merged: bool)
    requires
        obeys_concrete_eq::<T>(),
    ensures
        merged == (old(runs)@.len() > 0 && can_append(old(runs)@.last().run(), run.run())),
        final(runs)@ == (if merged {
            old(runs)@
        } else {
            old(runs)@.push(run)
        }),
{
    runs.push_rle(run)
}

/// An ordered sequence of runs, searchable in O(lg(n)) time via binary search.
pub struct BinarySearchRLE<T, S = usize> {
    vec: Vec<IndexedRLE<T, S>>,
}

impl<T, S: SequenceIndex> View for BinarySearchRLE<T, S> {
    type V = Seq<Run<T>>;

    /// The runs of the sequence, in the order in which they are held.
    closed spec fn view(&self) -> Seq<Run<T>> {
        self.vec@.map_values(|run: IndexedRLE<T, S>| run.run())
    }
}

impl<T: Clone + Eq, S: SequenceIndex> BinarySearchRLE<T, S> {
    /// Create a new, empty BinarySearchRLE.
    pub fn new() -> (made: Self)
        ensures
            made@ == Seq::<Run<T>>::empty(),
            well_formed(made@),
    {
        let made = Self { vec: Vec::new() };
        assert(made@ =~= Seq::<Run<T>>::empty());
        made
    }

    /// Appends the provided run to the sequence.
    ///
    /// Returns true if the run was added to the end of the sequence, and false
    /// if it was instead merged into the last run.
    ///
    /// Runs are to be appended in ascending order; this does no sorting.
    pub fn append_run(&mut self, run: IndexedRLE<T, S>) -> (added: bool)
        requires
            obeys_concrete_eq::<T>(),
            well_formed(old(self)@),
            accepts(old(self)@, run.run()),
        ensures
            final(self)@ == append(old(self)@, run.run()),
            added == !(old(self)@.len() > 0 && can_append(old(self)@.last(), run.run())),
            well_formed(final(self)@),
    {
        proof {
            lemma_append_well_formed(self@, run.run());
        }
        let merged = push_rle(&mut self.vec, run);
        assert(self@ =~= append(old(self)@, run.run()));
        !merged
    }

    /// Appends an individual token to the sequence as its own run.
    ///
    /// Returns true if the token was added to the end of the sequence as its
    /// own run, and false if it was instead merged into the last run.
    ///
    /// Tokens are to be appended in ascending order; this does no sorting.
    pub fn append_token(&mut self, token: T, start: S) -> (added: bool)
        requires
            obeys_concrete_eq::<T>(),
            well_formed(old(self)@),
            accepts(old(self)@, Run { token, start: start.position() }),
        ensures
            final(self)@ == append(old(self)@, Run { token, start: start.position() }),
            added == !(old(self)@.len() > 0 && can_append(
                old(self)@.last(),
                Run { token, start: start.position() },
            )),
            well_formed(final(self)@),
    {
        let run = IndexedRLE::new(token, start);
        self.append_run(run)
    }

    /// The number of runs that start before `index`, which is the place in the
    /// sequence of the first run that does not.
    fn partition_point(&self, index: S) -> (point: usize)
        requires
            ascending(self@),
        ensures
            point <= self@.len(),
            forall|k: int| 0 <= k < point ==> (#[trigger] self@[k]).start < index.position(),
            forall|k: int|
                point <= k < self@.len() ==> (#[trigger] self@[k]).start >= index.position(),
    {
        let mut low: usize = 0;
        let mut high: usize = self.vec.len();
        while low < high
            invariant
                low <= high <= self@.len(),
                self@.len() == self.vec@.len(),
                ascending(self@),
                forall|k: int| 0 <= k < low ==> (#[trigger] self@[k]).start < index.position(),
                forall|k: int|
                    high <= k < self@.len() ==> (#[trigger] self@[k]).start >= index.position(),
            decreases high - low,
        {
            let mid = low + (high - low) / 2;
            assert(self@[mid as int] == self.vec@[mid as int].run());
            if self.vec[mid].start.precedes(&index) {
                assert forall|k: int| 0 <= k < mid + 1 implies (#[trigger] self@[k]).start
                    < index.position() by {
                    if k < mid {
                        assert(self@[k].start < self@[mid as int].start);
                    }
                }
                low = mid + 1;
            } else {
                assert forall|k: int| mid <= k < self@.len() implies (#[trigger] self@[k]).start
                    >= index.position() by {
                    if mid < k {
                        assert(self@[mid as int].start < self@[k].start);
                    }
                }
                high = mid;
            }
        }
        low
    }

    /// Search for the token value at a particular index in the sequence.
    ///
    /// Returns None if the sequence is empty or if the index is before the
    /// start of the first run. Otherwise, this returns a clone of the token of
    /// the run that contains the index: the latest run that starts at or
    /// before it.
    pub fn find_token_at_index(&self, index: S) -> (found: Option<T>)
        requires
            well_formed(self@),
        ensures
            match token_at(self@, index.position()) {
                Some(token) => found matches Some(copy) && cloned(token, copy),
                None => found is None,
            },
    {
        if self.vec.len() == 0 {
            proof {
                lemma_covering_none(self@, index.position());
            }
            None
        } else {
            assert(self@[0] == self.vec@[0].run());
            if index.precedes(&self.vec[0].start) {
                proof {
                    lemma_covering_none(self@, index.position());
                }
                None
            } else {
                let idx = self.partition_point(index);
                let run_idx = if idx == self.vec.len() {
                    idx - 1
                } else {
                    assert(self@[idx as int] == self.vec@[idx as int].run());
                    let current_run = &self.vec[idx];
                    if current_run.start.coincides(&index) {
                        idx
                    } else {
                        idx - 1
                    }
                };
                proof {
                    assert(self@[run_idx as int] == self.vec@[run_idx as int].run());
                    lemma_covering_found(self@, index.position(), run_idx as int);
                }
                Some(self.vec[run_idx].token.clone())
            }
        }
    }

    /// Returns the total number of runs contained in the sequence.
    pub fn num_runs(&self) -> (count: usize)
        ensures
            count == self@.len(),
    {
        self.vec.len()
    }

    /// The amount of memory it takes to store this data: the runs, and the
    /// vector that holds them. The amount has to fit into a `usize`.
    pub fn memory_size(&self) -> (bytes: usize)
        requires
            self@.len() * size_of::<IndexedRLE<T, S>>() + size_of::<Vec<IndexedRLE<T, S>>>()
                <= usize::MAX,
        ensures
            bytes == self@.len() * size_of::<IndexedRLE<T, S>>() + size_of::<
                Vec<IndexedRLE<T, S>>,
            >(),
    {
        let run_size = core::mem::size_of::<IndexedRLE<T, S>>();
        let vec_size = core::mem::size_of::<Vec<IndexedRLE<T, S>>>();
        assert(self@.len() * run_size <= usize::MAX) by (nonlinear_arith)
            requires
                self@.len() * run_size + vec_size <= usize::MAX,
                vec_size >= 0,
        ;
        self.vec.len() * run_size + vec_size
    }
}

} // verus!
