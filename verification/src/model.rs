//! The abstract state shared by both memoizing wrappers, and what one request
//! does to it.
//!
//! A wrapper is described by the outputs it has stored and by the history of
//! calculator runs. The calculator itself enters only as a relation
//! `computes(input, output)`: the outputs it may return on an input.

use vstd::prelude::*;

verus! {

/// The abstract state of a memoizing wrapper.
#[verifier::reject_recursive_types(I)]
pub struct Memo<I, O> {
    /// The output stored for each input seen so far.
    pub table: Map<I, O>,
    /// The inputs on which the calculator has been run, oldest first.
    pub runs: Seq<I>,
}

impl<I, O> Memo<I, O> {
    /// The state of a freshly constructed wrapper: nothing stored, nothing run.
    pub open spec fn empty() -> Self {
        Memo { table: Map::empty(), runs: Seq::empty() }
    }

    /// Whether an output is stored for `n`.
    pub open spec fn has(self, n: I) -> bool {
        self.table.contains_key(n)
    }

    /// How many times the calculator has been run on `n`.
    pub open spec fn times_run(self, n: I) -> nat {
        self.runs.to_multiset().count(n)
    }

    /// Every stored output is one the calculator may return for its input, and
    /// the calculator has been run exactly once on each stored input and never
    /// on any other.
    pub open spec fn wf(self, computes: spec_fn(I, O) -> bool) -> bool {
        &&& forall|k: I| #[trigger] self.has(k) ==> computes(k, self.table[k])
        &&& forall|k: I| #[trigger]
            self.times_run(k) == (if self.has(k) {
                1nat
            } else {
                0nat
            })
    }

    /// One request for `n`: from state `self` it leads to state `post` and
    /// answers `out`.
    ///
    /// A stored input is answered from the table and nothing changes. Any other
    /// input costs one run of the calculator, whose output is stored and
    /// returned.
    pub open spec fn get_step(self, computes: spec_fn(I, O) -> bool, n: I, post: Self, out: O) -> bool {
        if self.has(n) {
            &&& out == self.table[n]
            &&& post.table =~= self.table
            &&& post.runs =~= self.runs
        } else {
            &&& computes(n, out)
            &&& post.table =~= self.table.insert(n, out)
            &&& post.runs =~= self.runs.push(n)
        }
    }

    /// Everything stored in `self` is stored unchanged in `later`.
    pub open spec fn kept_by(self, later: Self) -> bool {
        forall|k: I| #[trigger] self.has(k) ==> later.has(k) && later.table[k] == self.table[k]
    }
}

/// The calculator described by `computes` has at most one output on `n`.
pub open spec fn single_valued_at<I, O>(computes: spec_fn(I, O) -> bool, n: I) -> bool {
    forall|a: O, b: O| #[trigger] computes(n, a) && #[trigger] computes(n, b) ==> a == b
}

} // verus!
