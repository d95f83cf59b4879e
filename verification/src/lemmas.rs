//! What holds of every sequence of requests, proved over the abstract state.

use crate::model::{single_valued_at, Memo};
use vstd::prelude::*;
use vstd::seq_lib::group_to_multiset_ensures;

verus! {

/// A wrapper starts out well-formed: with nothing stored and nothing run.
pub proof fn lemma_empty_wf<I, O>(computes: spec_fn(I, O) -> bool)
    ensures
        Memo::<I, O>::empty().wf(computes),
{
    broadcast use group_to_multiset_ensures;

    let start = Memo::<I, O>::empty();
    assert forall|k: I| #[trigger] start.times_run(k) == 0 by {
        assert(!start.runs.contains(k));
    }
}

/// A request never breaks well-formedness: after it every stored output is
/// still one the calculator may return, and each stored input has still been
/// run exactly once.
pub proof fn lemma_get_preserves_wf<I, O>(
    pre: Memo<I, O>,
    computes: spec_fn(I, O) -> bool,
    n: I,
    post: Memo<I, O>,
    out: O,
)
    requires
        pre.wf(computes),
        pre.get_step(computes, n, post, out),
    ensures
        post.wf(computes),
{
    broadcast use group_to_multiset_ensures;

    assert forall|k: I| #[trigger] post.has(k) implies computes(k, post.table[k]) by {
        if k != n {
            assert(pre.has(k));
        }
    }
    assert forall|k: I| #[trigger]
        post.times_run(k) == (if post.has(k) {
            1nat
        } else {
            0nat
        }) by {
        assert(pre.times_run(k) == (if pre.has(k) {
            1nat
        } else {
            0nat
        }));
    }
}

/// After a request for `n`, an output for `n` is stored, it is the output
/// that was returned, and the calculator has been run on `n` exactly once.
pub proof fn lemma_get_stores_its_answer<I, O>(
    pre: Memo<I, O>,
    computes: spec_fn(I, O) -> bool,
    n: I,
    post: Memo<I, O>,
    out: O,
)
    requires
        pre.wf(computes),
        pre.get_step(computes, n, post, out),
    ensures
        post.has(n),
        post.table[n] == out,
        computes(n, out),
        post.times_run(n) == 1,
{
    lemma_get_preserves_wf(pre, computes, n, post, out);
    assert(post.has(n));
}

/// Two requests for the same input in a row run the calculator at most once:
/// the second returns what the first returned, runs nothing and changes
/// nothing. Over both requests the calculator is run once if the input was
/// new and not at all if it was stored before; either way it has then been run
/// on that input exactly once.
pub proof fn lemma_second_get_runs_nothing<I, O>(
    start: Memo<I, O>,
    computes: spec_fn(I, O) -> bool,
    n: I,
    mid: Memo<I, O>,
    first: O,
    end: Memo<I, O>,
    second: O,
)
    requires
        start.wf(computes),
        start.get_step(computes, n, mid, first),
        mid.get_step(computes, n, end, second),
    ensures
        second == first,
        end.table == mid.table,
        end.runs == mid.runs,
        end.runs.len() == start.runs.len() + (if start.has(n) {
            0nat
        } else {
            1nat
        }),
        end.times_run(n) == 1,
{
    lemma_get_stores_its_answer(start, computes, n, mid, first);
}

/// A request returns what the calculator returns: where the calculator has
/// only one output on `n`, the answer equals any output `direct` obtained from
/// the calculator on `n`, whether `n` was stored before or not.
pub proof fn lemma_get_agrees_with_calculator<I, O>(
    pre: Memo<I, O>,
    computes: spec_fn(I, O) -> bool,
    n: I,
    post: Memo<I, O>,
    out: O,
    direct: O,
)
    requires
        pre.wf(computes),
        pre.get_step(computes, n, post, out),
        single_valued_at(computes, n),
        computes(n, direct),
    ensures
        out == direct,
{
    lemma_get_stores_its_answer(pre, computes, n, post, out);
}

/// A request for `n` leaves every other input as it was: whether it is
/// stored, what is stored for it, and how often the calculator has been run
/// on it.
pub proof fn lemma_get_leaves_others<I, O>(
    pre: Memo<I, O>,
    computes: spec_fn(I, O) -> bool,
    n: I,
    post: Memo<I, O>,
    out: O,
    other: I,
)
    requires
        pre.get_step(computes, n, post, out),
        other != n,
    ensures
        post.has(other) == pre.has(other),
        pre.has(other) ==> post.table[other] == pre.table[other],
        post.times_run(other) == pre.times_run(other),
{
    broadcast use group_to_multiset_ensures;

}

/// Caching one input does not change the answer for another: a request for
/// `other` is answered alike before and after a request for a different input
/// `n`, provided the answer for `other` is determined at all, that is, `other`
/// is stored already or the calculator has only one output on it.
pub proof fn lemma_answer_unaffected_by_other_input<I, O>(
    pre: Memo<I, O>,
    computes: spec_fn(I, O) -> bool,
    n: I,
    post: Memo<I, O>,
    out: O,
    other: I,
    pre_next: Memo<I, O>,
    pre_answer: O,
    post_next: Memo<I, O>,
    post_answer: O,
)
    requires
        pre.get_step(computes, n, post, out),
        other != n,
        pre.has(other) || single_valued_at(computes, other),
        pre.get_step(computes, other, pre_next, pre_answer),
        post.get_step(computes, other, post_next, post_answer),
    ensures
        post_answer == pre_answer,
{
    lemma_get_leaves_others(pre, computes, n, post, out, other);
}

/// A request only adds: everything stored before it is stored unchanged
/// after it.
pub proof fn lemma_get_keeps_entries<I, O>(
    pre: Memo<I, O>,
    computes: spec_fn(I, O) -> bool,
    n: I,
    post: Memo<I, O>,
    out: O,
)
    requires
        pre.get_step(computes, n, post, out),
    ensures
        pre.kept_by(post),
{
    assert forall|k: I| #[trigger] pre.has(k) implies post.has(k) && post.table[k]
        == pre.table[k] by {}
}

/// Keeping entries is reflexive and transitive, so it holds across any number
/// of requests.
pub proof fn lemma_kept_by_chains<I, O>(a: Memo<I, O>, b: Memo<I, O>, c: Memo<I, O>)
    requires
        a.kept_by(b),
        b.kept_by(c),
    ensures
        a.kept_by(a),
        a.kept_by(c),
{
    assert forall|k: I| #[trigger] a.has(k) implies c.has(k) && c.table[k] == a.table[k] by {
        assert(b.has(k));
    }
}

/// Once an input has been answered, every later request for it returns that
/// same output, runs nothing and changes nothing, whatever was requested in
/// between.
pub proof fn lemma_repeated_get_returns_first_answer<I, O>(
    pre: Memo<I, O>,
    computes: spec_fn(I, O) -> bool,
    n: I,
    post: Memo<I, O>,
    first: O,
    later: Memo<I, O>,
    end: Memo<I, O>,
    again: O,
)
    requires
        pre.wf(computes),
        pre.get_step(computes, n, post, first),
        post.kept_by(later),
        later.get_step(computes, n, end, again),
    ensures
        again == first,
        computes(n, again),
        end.table == later.table,
        end.runs == later.runs,
{
    lemma_get_stores_its_answer(pre, computes, n, post, first);
    assert(later.has(n));
}

} // verus!
