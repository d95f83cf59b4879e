//! The by-value memoizing wrapper: keys are copies of the inputs.

use crate::lemmas::{lemma_empty_wf, lemma_get_preserves_wf};
use crate::model::Memo;
use std::collections::hash_map::Entry;
use std::collections::HashMap;
use std::hash::Hash;
use vstd::prelude::*;
use vstd::std_specs::hash::*;

verus! {

/// A calculator together with the outputs it has produced so far, keyed by
/// copies of the inputs.
#[verifier::reject_recursive_types(I)]
#[verifier::reject_recursive_types(O)]
pub struct Cacher<I, O, T> where T: Fn(I) -> O {
    calc: T,
    cache: HashMap<I, O>,
    runs: Ghost<Seq<I>>,
}

/// Runs the calculator on `n`, noting the run in `runs`.
///
/// This is the only place where the calculator is called, and the history is
/// ghost state: it records a run because this function adds it here.
fn run<I, O, T: Fn(I) -> O>(calc: &T, n: I, runs: &mut Ghost<Seq<I>>) -> (out: O)
    requires
        call_requires(*calc, (n,)),
    ensures
        call_ensures(*calc, (n,), out),
        final(runs)@ == old(runs)@.push(n),
{
    proof {
        *runs = Ghost(runs@.push(n));
    }
    calc(n)
}

/// The relation between the inputs of `calc` and the outputs it may return on
/// them.
pub open spec fn outputs_of<I, O, T: Fn(I) -> O>(calc: T) -> spec_fn(I, O) -> bool {
    |k: I, v: O| call_ensures(calc, (k,), v)
}

impl<I, O, T> View for Cacher<I, O, T> where T: Fn(I) -> O {
    type V = Memo<I, O>;

    /// The stored outputs and the history of calculator runs.
    closed spec fn view(&self) -> Memo<I, O> {
        Memo { table: self.cache@, runs: self.runs@ }
    }
}

impl<I: Eq + Hash + Copy, O, T> Cacher<I, O, T> where T: Fn(I) -> O {
    /// The calculator this wrapper was built around.
    pub closed spec fn calculator(&self) -> T {
        self.calc
    }

    /// The outputs the calculator may return on an input.
    pub open spec fn computes(&self) -> spec_fn(I, O) -> bool {
        outputs_of(self.calculator())
    }

    /// Every stored output is one the calculator may return for its input, and
    /// the calculator has been run exactly once on each stored input and never
    /// on any other.
    pub open spec fn wf(&self) -> bool {
        self@.wf(self.computes())
    }

    /// Wraps `calc` with an empty memo. The calculator is not run.
    pub fn new(calc: T) -> (c: Cacher<I, O, T>)
        ensures
            c.calculator() == calc,
            c@ == Memo::<I, O>::empty(),
            c.wf(),
    {
        proof {
            lemma_empty_wf::<I, O>(outputs_of(calc));
        }
        Cacher { calc, cache: HashMap::new(), runs: Ghost(Seq::empty()) }
    }

    /// Returns the output for `n`: the stored one if there is one, else the
    /// calculator's, which is then stored.
    ///
    /// The calculator is run only for an input that is not stored, so only
    /// then must `n` be an input it accepts. Values of `I` must hash and
    /// compare soundly.
    pub fn get(&mut self, n: &I) -> (out: &O)
        requires
            obeys_key_model::<I>(),
            old(self).wf(),
            old(self)@.has(*n) || call_requires(old(self).calculator(), (*n,)),
        ensures
            old(self)@.get_step(old(self).computes(), *n, final(self)@, *out),
            final(self).calculator() == old(self).calculator(),
            final(self).wf(),
    {
        broadcast use group_hash_axioms;

        proof {
            let pre = self@;
            let computes = self.computes();
            assert forall|post: Memo<I, O>, out: O| #[trigger]
                pre.get_step(computes, *n, post, out) implies post.wf(computes) by {
                lemma_get_preserves_wf(pre, computes, *n, post, out);
            }
        }
        match self.cache.entry(*n) {
            Entry::Occupied(slot) => slot.into_mut(),
            Entry::Vacant(slot) => slot.insert(run(&self.calc, *n, &mut self.runs)),
        }
    }
}

} // verus!
