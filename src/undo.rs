//! The executable undo container.

use vstd::prelude::*;

use crate::history::{History, applies, clone_is_exact, is_pure_update, lemma_replay_step, replay};

verus! {

/// Wraps a state, tracks the updates made to it and allows undoing or redoing
/// them.
///
/// An update is a function from the current state to the next one. It is
/// recorded when applied; undoing replays the recorded updates that remain
/// on a copy of the first state. Updates of one container share the type
/// `TUpdate`: `fn(&TState) -> TState` takes closures that capture nothing,
/// `Box<dyn Fn(&TState) -> TState>` takes any closure.
pub struct Undo<TState, TUpdate> {
    /// The first state, from which the current one is regenerated.
    initial_state: TState,
    /// The state with the applied updates.
    current_state: TState,
    /// Every recorded update, in the order in which it was applied.
    updates: Vec<TUpdate>,
    /// How many of the recorded updates are applied to the current state.
    nb_updates: usize,
}

impl<TState, TUpdate> View for Undo<TState, TUpdate> {
    type V = History<TState, TUpdate>;

    closed spec fn view(&self) -> History<TState, TUpdate> {
        History {
            initial: self.initial_state,
            current: self.current_state,
            updates: self.updates@,
            applied: self.nb_updates as nat,
        }
    }
}

impl<TState: Clone, TUpdate: Fn(&TState) -> TState> Undo<TState, TUpdate> {
    /// The container is well formed: its history is consistent, every
    /// recorded update is pure, and states clone exactly.
    pub closed spec fn wf(&self) -> bool {
        &&& self@.consistent()
        &&& forall|i: int| 0 <= i < self.updates@.len() ==> is_pure_update(#[trigger] self.updates@[i])
        &&& clone_is_exact::<TState>()
    }

    /// Wraps `state`, with no update recorded.
    pub fn new(state: TState) -> (r: Self)
        requires
            clone_is_exact::<TState>(),
        ensures
            r.wf(),
            r@ == History::<TState, TUpdate>::fresh(state),
    {
        Undo {
            current_state: state.clone(),
            initial_state: state,
            updates: Vec::new(),
            nb_updates: 0,
        }
    }

    /// Applies `update_fn` to the current state and records it. The updates
    /// that were undone and not redone are discarded first.
    pub fn update(&mut self, update_fn: TUpdate)
        requires
            old(self).wf(),
            is_pure_update(update_fn),
        ensures
            final(self).wf(),
            final(self)@ == old(self)@.updated(update_fn),
    {
        if self.nb_updates != self.updates.len() {
            self.updates.truncate(self.nb_updates);
        }
        self.current_state = update_fn(&self.current_state);
        self.updates.push(update_fn);
        self.nb_updates = self.updates.len();
        proof {
            let h = self@;
            let o = old(self)@;
            assert(h.updates =~= o.updates.take(o.applied as int).push(update_fn));
            assert(h.updates.take(o.applied as int) =~= o.updates.take(o.applied as int));
            assert(h.updates.take(h.applied as int) =~= h.updates);
            lemma_replay_step(h.updates, h.initial, o.applied as int);
        }
    }

    /// Undoes the last applied update: the current state is regenerated by
    /// replaying the updates before it on a copy of the first state. Does
    /// nothing when no update is applied.
    pub fn undo(&mut self)
        requires
            old(self).wf(),
        ensures
            final(self).wf(),
            final(self)@ == old(self)@.undone(),
    {
        if self.nb_updates == 0 {
            return;
        }
        self.nb_updates -= 1;
        let mut state = self.initial_state.clone();
        let mut i: usize = 0;
        while i < self.nb_updates
            invariant
                self.initial_state == old(self).initial_state,
                self.updates@ == old(self).updates@,
                self.nb_updates == old(self).nb_updates - 1,
                self.nb_updates < self.updates@.len(),
                clone_is_exact::<TState>(),
                forall|j: int| 0 <= j < self.updates@.len() ==> is_pure_update(#[trigger] self.updates@[j]),
                i <= self.nb_updates,
                state == replay(self.updates@.take(i as int), self.initial_state),
            decreases self.nb_updates - i,
        {
            proof {
                lemma_replay_step(self.updates@, self.initial_state, i as int);
            }
            state = (self.updates[i])(&state);
            i += 1;
        }
        self.current_state = state;
    }

    /// Applies again the first update that was undone and not redone. Does
    /// nothing when there is none.
    pub fn redo(&mut self)
        requires
            old(self).wf(),
        ensures
            final(self).wf(),
            final(self)@ == old(self)@.redone(),
    {
        if self.nb_updates == self.updates.len() {
            return;
        }
        proof {
            lemma_replay_step(self.updates@, self.initial_state, self.nb_updates as int);
        }
        self.current_state = (self.updates[self.nb_updates])(&self.current_state);
        self.nb_updates += 1;
    }

    /// The current state.
    pub fn get(&self) -> (r: &TState)
        ensures
            *r == self@.current,
    {
        &self.current_state
    }

    /// Unwraps the current state, giving up the history.
    pub fn unwrap(self) -> (r: TState)
        ensures
            r == self@.current,
    {
        self.current_state
    }
}

impl<TState: Clone, TUpdate: Fn(&TState) -> TState> core::ops::Deref for Undo<TState, TUpdate> {
    type Target = TState;

    /// Reads through to the current state.
    fn deref(&self) -> (r: &TState)
        ensures
            *r == self@.current,
    {
        &self.current_state
    }
}

} // verus!
