//! The by-reference memoizing wrapper: keys are borrows of caller-owned
//! inputs, so an input is never duplicated and must outlive the wrapper.

use crate::lemmas::{lemma_empty_wf, lemma_get_preserves_wf};
use crate::model::Memo;
use std::collections::hash_map::Entry;
use std::collections::HashMap;
use std::hash::Hash;
use vstd::prelude::*;
use vstd::std_specs::hash::*;

verus! {

/// A calculator together with the outputs it has produced so far, keyed by
/// borrows of the inputs.
#[verifier::reject_recursive_types(I)]
#[verifier::reject_recursive_types(O)]
pub struct RefCacher<'a, I, O, T> where T: Fn(&'a I) -> O {
    calc: T,
    cache: HashMap<&'a I, O>,
    runs: Ghost<Seq<I>>,
}

/// Calls `std::collections::HashMap::entry` on a table keyed by references.
///
/// Trusted, not proved. vstd describes `entry` only for a key type known to
/// hash and compare soundly, which it knows of no reference type. This
/// contract makes the same statement under the condition that the values
/// pointed to are sound keys. It rests on std's impls of `Hash`, `PartialEq`
/// and `Clone` for `&I`, which hash and compare what is pointed to and copy
/// the reference.
///
/// What is claimed: the entry is the one for the key equal to `*key`; it
/// reports that key and the output stored under it, if any; and what the
/// entry is left holding is what the table holds under that key afterwards,
/// every other key being untouched.
#[verifier::external_body]
fn entry_at<'m, 'a, I: Eq + Hash, O>(table: &'m mut HashMap<&'a I, O>, key: &'a I) -> (entry:
    Entry<'m, &'a I, O>)
    ensures
        obeys_key_model::<I>() ==> {
            &&& entry.key() == key
            &&& entry.value() == old(table)@.get(key)
            &&& final(table)@ == (match entry.final_value() {
                Some(value) => old(table)@.insert(key, value),
                None => old(table)@.remove(key),
            })
        },
{
    table.entry(key)
}

/// Runs the calculator on `n`, noting the run in `runs`.
///
/// This is the only place where the calculator is called, and the history is
/// ghost state: it records a run because this function adds it here.
fn run<'a, I: 'a, O, T: Fn(&'a I) -> O>(calc: &T, n: &'a I, runs: &mut Ghost<Seq<I>>) -> (out: O)
    requires
        call_requires(*calc, (n,)),
    ensures
        call_ensures(*calc, (n,), out),
        final(runs)@ == old(runs)@.push(*n),
{
    proof {
        *runs = Ghost(runs@.push(*n));
    }
    calc(n)
}

/// The relation between the inputs of `calc` and the outputs it may return on
/// them.
pub open spec fn outputs_of<'a, I: 'a, O, T: Fn(&'a I) -> O>(calc: T) -> spec_fn(I, O) -> bool {
    |k: I, v: O| call_ensures(calc, (&k,), v)
}

impl<'a, I, O, T> View for RefCacher<'a, I, O, T> where T: Fn(&'a I) -> O {
    type V = Memo<I, O>;

    /// The stored outputs, by the value of the input, and the history of
    /// calculator runs.
    closed spec fn view(&self) -> Memo<I, O> {
        Memo {
            table: Map::new(|k: I| self.cache@.contains_key(&k), |k: I| self.cache@[&k]),
            runs: self.runs@,
        }
    }
}

impl<'a, I: Eq + Hash, O, T> RefCacher<'a, I, O, T> where T: Fn(&'a I) -> O {
    /// The calculator this wrapper was built around.
    pub closed spec fn calculator(&self) -> T {
        self.calc
    }

    /// The outputs the calculator may return on an input.
    pub open spec fn computes(&self) -> spec_fn(I, O) -> bool {
        outputs_of(self.calculator())
    }

    /// Every stored output is one the calculator may return for its input, and
    /// the calculator has been run exactly once on each stored input and never
    /// on any other.
    pub open spec fn wf(&self) -> bool {
        self@.wf(self.computes())
    }

    /// Wraps `calc` with an empty memo. The calculator is not run.
    pub fn new(calc: T) -> (c: RefCacher<'a, I, O, T>)
        ensures
            c.calculator() == calc,
            c@ == Memo::<I, O>::empty(),
            c.wf(),
    {
        proof {
            lemma_empty_wf::<I, O>(outputs_of(calc));
        }
        let c = RefCacher { calc, cache: HashMap::new(), runs: Ghost(Seq::empty()) };
        assert(c@.table =~= Map::<I, O>::empty());
        c
    }

    /// Returns the output for `*n`: the stored one if an equal input has been
    /// seen, else the calculator's, which is then stored under `n`.
    ///
    /// The calculator is run only for an input that is not stored, so only
    /// then must `n` be an input it accepts. Values of `I` must hash and
    /// compare soundly. That `n` outlives the wrapper is in its type.
    pub fn get(&mut self, n: &'a I) -> (out: &O)
        requires
            obeys_key_model::<I>(),
            old(self).wf(),
            old(self)@.has(*n) || call_requires(old(self).calculator(), (n,)),
        ensures
            old(self)@.get_step(old(self).computes(), *n, final(self)@, *out),
            final(self).calculator() == old(self).calculator(),
            final(self).wf(),
    {
        proof {
            let pre = self@;
            let computes = self.computes();
            assert forall|post: Memo<I, O>, out: O| #[trigger]
                pre.get_step(computes, *n, post, out) implies post.wf(computes) by {
                lemma_get_preserves_wf(pre, computes, *n, post, out);
            }
        }
        match entry_at(&mut self.cache, n) {
            Entry::Occupied(slot) => slot.into_mut(),
            Entry::Vacant(slot) => slot.insert(run(&self.calc, n, &mut self.runs)),
        }
    }
}

} // verus!
