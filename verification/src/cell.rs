//! The shared state cell: the one value the listener writes and every
//! command handler reads.
//!
//! The cell itself is a plain value; the process shares it behind a
//! reader/writer lock and hands the writer the outcome of its
//! non-blocking acquisition as the `busy` argument of [`StateCell::publish`].
//! Readers always see a complete snapshot, never a partial write.

use vstd::prelude::*;

use crate::game::GameState;
use crate::game::GameStateView;
use crate::game::spec_default_state;

verus! {

/// Holds the latest decoded game state.
pub struct StateCell {
    value: GameState,
}

impl View for StateCell {
    type V = GameStateView;

    closed spec fn view(&self) -> GameStateView {
        self.value@
    }
}

impl StateCell {
    /// A fresh cell holds the "no data yet" snapshot.
    pub fn new() -> (c: StateCell)
        ensures
            c@ == spec_default_state(),
    {
        StateCell { value: GameState::default() }
    }

    /// A complete copy of the current snapshot.
    pub fn read(&self) -> (g: GameState)
        ensures
            g@ == self@,
    {
        self.value.clone()
    }

    /// Install `candidate` unconditionally (the caller already holds the
    /// write side of the lock).
    pub fn install(&mut self, candidate: GameState)
        ensures
            final(self)@ == candidate@,
    {
        self.value = candidate;
    }

    /// Non-blocking write attempt: `busy` is whether the surrounding lock
    /// denied the try-acquisition.  On denial the cell is untouched and the
    /// caller keeps the candidate; on success the candidate is installed
    /// wholesale.
    pub fn publish(&mut self, candidate: GameState, busy: bool) -> (ok: bool)
        ensures
            ok == !busy,
            final(self)@ == if busy {
                old(self)@
            } else {
                candidate@
            },
    {
        if busy {
            false
        } else {
            self.value = candidate;
            true
        }
    }
}

} // verus!
