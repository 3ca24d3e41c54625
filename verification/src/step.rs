//! A mathematical model of coordinate-tracking traversal.
//!
//! A traversal state is a flat position `p` into a fixed sequence of elements
//! `elems`, together with a flag `done` that records whether the underlying
//! sequence has been drained. Producing an element yields the triple
//! `(p / cols, p % cols, elems[p])` — the row-major coordinates of position
//! `p` — and advances the position by one. Skipping `n` elements yields the
//! element `n` positions ahead and advances past it.
//!
//! The executable adapter's contracts are stated against this model, and the
//! lemmas below relate its operations to one another: skipping agrees with
//! repeated production, and exhaustion is terminal.

use vstd::prelude::*;

verus! {

/// What one production step yields from state `(p, done)` over `elems`, and
/// the state it leaves: the produced triple (or `None` once drained), the new
/// position, and the new drained flag.
pub open spec fn produce_step<T>(cols: int, elems: Seq<T>, p: int, done: bool) -> (Option<
    (int, int, T),
>, int, bool) {
    if done {
        (None, p, true)
    } else {
        (Some((p / cols, p % cols, elems[p])), p + 1, p + 1 == elems.len())
    }
}

/// What skipping past `n` elements yields from state `(p, done)` over `elems`,
/// and the state it leaves. When fewer than `n + 1` elements remain the
/// traversal is drained and nothing is yielded.
pub open spec fn skip_step<T>(cols: int, elems: Seq<T>, p: int, done: bool, n: int) -> (Option<
    (int, int, T),
>, int, bool) {
    if !done && p + n < elems.len() {
        (Some(((p + n) / cols, (p + n) % cols, elems[p + n])), p + n + 1, p + n + 1 == elems.len())
    } else {
        (None, p, true)
    }
}

/// The state reached from `(p, done)` after `j` production steps.
pub open spec fn state_after<T>(cols: int, elems: Seq<T>, p: int, done: bool, j: nat) -> (
    int,
    bool,
)
    decreases j,
{
    if j == 0 {
        (p, done)
    } else {
        let prev = state_after(cols, elems, p, done, (j - 1) as nat);
        let stepped = produce_step(cols, elems, prev.0, prev.1);
        (stepped.1, stepped.2)
    }
}

/// Law: from a live state at position `p`, `j` production steps (all of which
/// succeed, since `p + j` does not pass the end) advance the position to
/// `p + j`, and the traversal is drained exactly when the end is reached.
pub proof fn lemma_state_after<T>(cols: int, elems: Seq<T>, p: int, j: nat)
    requires
        0 <= p,
        p + j <= elems.len(),
    ensures
        state_after(cols, elems, p, false, j).0 == p + j,
        state_after(cols, elems, p, false, j).1 == (j > 0 && p + j == elems.len()),
    decreases j,
{
    if j > 0 {
        lemma_state_after(cols, elems, p, (j - 1) as nat);
    }
}

/// Law: skipping past `n` elements from a live position `p` yields exactly the
/// triple that the `(n + 1)`-th sequential production from `p` yields, and
/// leaves the traversal in the same state, positioned to resume at
/// `p + n + 1`.
pub proof fn lemma_skip_matches_sequential<T>(cols: int, elems: Seq<T>, p: int, n: int)
    requires
        0 <= p,
        0 <= n,
        p + n < elems.len(),
    ensures
        ({
            let prior = state_after(cols, elems, p, false, n as nat);
            let seq_step = produce_step(cols, elems, prior.0, prior.1);
            let skipped = skip_step(cols, elems, p, false, n);
            &&& seq_step.0 == skipped.0
            &&& seq_step.1 == skipped.1
            &&& seq_step.2 == skipped.2
            &&& state_after(cols, elems, p, false, (n + 1) as nat) == (skipped.1, skipped.2)
        }),
{
    lemma_state_after(cols, elems, p, n as nat);
    lemma_state_after(cols, elems, p, (n + 1) as nat);
}

/// Law: exhaustion is terminal and idempotent. A drained state produces
/// nothing and never changes again, however many further productions are
/// attempted.
pub proof fn lemma_exhausted_idempotent<T>(cols: int, elems: Seq<T>, p: int)
    ensures
        produce_step(cols, elems, p, true).0 is None,
        produce_step(cols, elems, p, true).1 == p,
        produce_step(cols, elems, p, true).2 == true,
        forall|j: nat| #[trigger] state_after(cols, elems, p, true, j) == (p, true),
{
    assert forall|j: nat| #[trigger] state_after(cols, elems, p, true, j) == (p, true) by {
        lemma_exhausted_stays(cols, elems, p, j);
    }
}

proof fn lemma_exhausted_stays<T>(cols: int, elems: Seq<T>, p: int, j: nat)
    ensures
        state_after(cols, elems, p, true, j) == (p, true),
    decreases j,
{
    if j > 0 {
        lemma_exhausted_stays(cols, elems, p, (j - 1) as nat);
    }
}

/// Law: sequential production over a whole collection yields, at every valid
/// position `p`, the coordinate `(p / cols, p % cols)` together with the
/// element at linear offset `p`.
pub proof fn lemma_sequential_coordinates<T>(cols: int, elems: Seq<T>, p: int)
    requires
        0 < cols,
        0 <= p < elems.len(),
    ensures
        ({
            let reached = state_after(cols, elems, 0, false, p as nat);
            produce_step(cols, elems, reached.0, reached.1).0 == Some(
                (p / cols, p % cols, elems[p]),
            )
        }),
{
    lemma_state_after(cols, elems, 0, p as nat);
}

} // verus!
