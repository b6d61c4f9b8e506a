//! The mathematical model of an undo history: the state it started from, the
//! recorded updates, and a cursor over them.

use vstd::prelude::*;

verus! {

/// Holds when `f` can be called on every state and returns one and the same
/// state each time it is called on a given state.
pub open spec fn is_pure_update<S, F: Fn(&S) -> S>(f: F) -> bool {
    &&& forall|s: S| #[trigger] call_requires(f, (&s,))
    &&& forall|s: S, a: S, b: S|
        #[trigger] call_ensures(f, (&s,), a) && #[trigger] call_ensures(f, (&s,), b) ==> a == b
}

/// The state that the update `f` makes of `s`.
pub open spec fn applies<S, F: Fn(&S) -> S>(f: F, s: S) -> S {
    choose|t: S| call_ensures(f, (&s,), t)
}

/// Holds when cloning a state always yields an equal state.
pub open spec fn clone_is_exact<S: Clone>() -> bool {
    forall|a: S, b: S| #[trigger] call_ensures(S::clone, (&a,), b) ==> a == b
}

/// The state obtained by applying `updates` in order to `s`.
pub open spec fn replay<S, F: Fn(&S) -> S>(updates: Seq<F>, s: S) -> S
    decreases updates.len(),
{
    if updates.len() == 0 {
        s
    } else {
        applies(updates.last(), replay(updates.drop_last(), s))
    }
}

/// Replaying the first `i + 1` updates is applying update `i` to the replay of
/// the first `i`.
pub proof fn lemma_replay_step<S, F: Fn(&S) -> S>(updates: Seq<F>, s: S, i: int)
    requires
        0 <= i < updates.len(),
    ensures
        replay(updates.take(i + 1), s) == applies(updates[i], replay(updates.take(i), s)),
{
    assert(updates.take(i + 1).drop_last() =~= updates.take(i));
}

/// An undo history: the first state, the recorded updates, how many of them
/// are applied, and the state that they give.
pub struct History<S, F> {
    pub initial: S,
    pub current: S,
    pub updates: Seq<F>,
    pub applied: nat,
}

impl<S, F: Fn(&S) -> S> History<S, F> {
    /// The history of a state on which nothing was done yet.
    pub open spec fn fresh(s: S) -> Self {
        History { initial: s, current: s, updates: Seq::empty(), applied: 0 }
    }

    /// The cursor lies within the recorded updates, and the current state is
    /// the first state with the applied updates replayed on it.
    pub open spec fn consistent(self) -> bool {
        &&& self.applied <= self.updates.len()
        &&& self.current == replay(self.updates.take(self.applied as int), self.initial)
    }

    /// The history after the update `f`: the updates past the cursor are
    /// dropped, `f` is applied and recorded, and the cursor moves past it.
    pub open spec fn updated(self, f: F) -> Self {
        History {
            initial: self.initial,
            current: applies(f, self.current),
            updates: self.updates.take(self.applied as int).push(f),
            applied: self.applied + 1,
        }
    }

    /// The history after one undo: unchanged when no update is applied, else
    /// the cursor moves back by one and the current state is replayed from
    /// the first state.
    pub open spec fn undone(self) -> Self {
        if self.applied == 0 {
            self
        } else {
            History {
                current: replay(self.updates.take(self.applied - 1), self.initial),
                applied: (self.applied - 1) as nat,
                ..self
            }
        }
    }

    /// The history after one redo: unchanged when the cursor is at the end of
    /// the recorded updates, else the next update is applied to the current
    /// state and the cursor moves past it.
    pub open spec fn redone(self) -> Self {
        if self.applied >= self.updates.len() {
            self
        } else {
            History {
                current: applies(self.updates[self.applied as int], self.current),
                applied: self.applied + 1,
                ..self
            }
        }
    }
}

impl<S, F: Fn(&S) -> S> History<S, F> {
    /// The history after the updates `fs`, made one after another in order.
    pub open spec fn updated_all(self, fs: Seq<F>) -> Self
        decreases fs.len(),
    {
        if fs.len() == 0 {
            self
        } else {
            self.updated_all(fs.drop_last()).updated(fs.last())
        }
    }

    /// The history after `k` undos in a row.
    pub open spec fn undone_times(self, k: nat) -> Self
        decreases k,
    {
        if k == 0 {
            self
        } else {
            self.undone_times((k - 1) as nat).undone()
        }
    }

    /// The history after `k` redos in a row.
    pub open spec fn redone_times(self, k: nat) -> Self
        decreases k,
    {
        if k == 0 {
            self
        } else {
            self.redone_times((k - 1) as nat).redone()
        }
    }
}

/// Each of update, undo and redo keeps a history consistent.
pub proof fn lemma_steps_keep_consistent<S, F: Fn(&S) -> S>(h: History<S, F>, f: F)
    requires
        h.consistent(),
    ensures
        h.updated(f).consistent(),
        h.undone().consistent(),
        h.redone().consistent(),
{
    let u = h.updated(f);
    assert(u.updates.take(u.applied as int) =~= u.updates);
    assert(u.updates.take(h.applied as int) =~= h.updates.take(h.applied as int));
    lemma_replay_step(u.updates, h.initial, h.applied as int);
    let d = h.undone();
    if h.applied > 0 {
        assert(d.updates.take(d.applied as int) =~= h.updates.take(h.applied - 1));
    }
    if h.applied < h.updates.len() {
        lemma_replay_step(h.updates, h.initial, h.applied as int);
    }
}

/// Any number of undos in a row keeps a history consistent.
pub proof fn lemma_undos_keep_consistent<S, F: Fn(&S) -> S>(h: History<S, F>, k: nat)
    requires
        h.consistent(),
    ensures
        h.undone_times(k).consistent(),
    decreases k,
{
    if k > 0 {
        lemma_undos_keep_consistent(h, (k - 1) as nat);
        lemma_steps_keep_consistent(h.undone_times((k - 1) as nat), arbitrary());
    }
}

/// Starting from any state and making any sequence of updates, the current
/// state is the result of applying all of them in order to that state, and
/// they are all recorded and applied.
pub proof fn lemma_replay_equivalence<S, F: Fn(&S) -> S>(s: S, fs: Seq<F>)
    ensures
        History::<S, F>::fresh(s).updated_all(fs).current == replay(fs, s),
        History::<S, F>::fresh(s).updated_all(fs).updates == fs,
        History::<S, F>::fresh(s).updated_all(fs).applied == fs.len(),
        History::<S, F>::fresh(s).updated_all(fs).consistent(),
    decreases fs.len(),
{
    if fs.len() > 0 {
        let prev = History::<S, F>::fresh(s).updated_all(fs.drop_last());
        lemma_replay_equivalence(s, fs.drop_last());
        lemma_steps_keep_consistent(prev, fs.last());
        assert(prev.updates.take(prev.applied as int) =~= fs.drop_last());
        assert(fs.drop_last().push(fs.last()) =~= fs);
    } else {
        assert(fs =~= Seq::<F>::empty());
        assert(Seq::<F>::empty().take(0) =~= Seq::<F>::empty());
    }
}

/// An undo followed by a redo gives back the same history, whenever at least
/// one update is applied.
pub proof fn lemma_undo_then_redo<S, F: Fn(&S) -> S>(h: History<S, F>)
    requires
        h.consistent(),
        h.applied > 0,
    ensures
        h.undone().redone() == h,
{
    lemma_replay_step(h.updates, h.initial, h.applied - 1);
}

/// Undo with no update applied, and redo with the cursor at the end of the
/// recorded updates, change nothing, however many times they are called.
pub proof fn lemma_no_op_at_boundaries<S, F: Fn(&S) -> S>(h: History<S, F>, k: nat)
    ensures
        h.applied == 0 ==> h.undone_times(k) == h,
        h.applied >= h.updates.len() ==> h.redone_times(k) == h,
    decreases k,
{
    if k > 0 {
        lemma_no_op_at_boundaries(h, (k - 1) as nat);
    }
}

/// A fresh history is left unchanged by any number of undos or redos.
pub proof fn lemma_fresh_no_op<S, F: Fn(&S) -> S>(s: S, k: nat)
    ensures
        History::<S, F>::fresh(s).undone_times(k) == History::<S, F>::fresh(s),
        History::<S, F>::fresh(s).redone_times(k) == History::<S, F>::fresh(s),
{
    lemma_no_op_at_boundaries(History::<S, F>::fresh(s), k);
}

/// After any number of undos, one update discards the updates that were
/// undone: no redo changes anything afterwards, and the new update is the
/// only one that an undo then a redo can bring back.
pub proof fn lemma_update_truncates<S, F: Fn(&S) -> S>(
    h: History<S, F>,
    k: nat,
    f: F,
    n: nat,
)
    requires
        h.consistent(),
        k >= 1,
    ensures
        h.undone_times(k).updated(f).applied == h.undone_times(k).updated(f).updates.len(),
        h.undone_times(k).updated(f).redone_times(n) == h.undone_times(k).updated(f),
        h.undone_times(k).updated(f).undone().redone() == h.undone_times(k).updated(f),
{
    let g = h.undone_times(k).updated(f);
    lemma_undos_keep_consistent(h, k);
    lemma_steps_keep_consistent(h.undone_times(k), f);
    lemma_no_op_at_boundaries(g, n);
    lemma_undo_then_redo(g);
}

} // verus!
