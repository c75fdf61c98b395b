//! A strict two-state pause machine.
//!
//! `pause` and `unpause` are the only transitions, and a transition into
//! the state the machine is already in is rejected with
//! `InvalidPauseTransition` rather than silently ignored, so that caller
//! logic errors surface early.

use vstd::prelude::*;
use crate::errors::Error;

verus! {

/// The pause state: active (`!paused`) or paused. Fresh gates are active.
pub struct PauseGate {
    paused: bool,
}

impl PauseGate {
    /// Whether the machine is in the paused state.
    pub closed spec fn is_paused(self) -> bool {
        self.paused
    }

    /// A fresh gate, in the active state.
    pub fn new() -> (gate: PauseGate)
        ensures
            !gate.is_paused(),
    {
        PauseGate { paused: false }
    }

    /// Read the current state.
    pub fn paused(&self) -> (r: bool)
        ensures
            r == self.is_paused(),
    {
        self.paused
    }

    /// Transition active -> paused. Rejects a second `pause` in a row.
    pub fn pause(&mut self) -> (r: Result<(), Error>)
        ensures
            r is Ok <==> !old(self).is_paused(),
            r is Err ==> r == Err::<(), Error>(Error::InvalidPauseTransition)
                && *final(self) == *old(self),
            r is Ok ==> final(self).is_paused(),
    {
        if self.paused {
            Err(Error::InvalidPauseTransition)
        } else {
            self.paused = true;
            Ok(())
        }
    }

    /// Transition paused -> active. Rejects a second `unpause` in a row.
    pub fn unpause(&mut self) -> (r: Result<(), Error>)
        ensures
            r is Ok <==> old(self).is_paused(),
            r is Err ==> r == Err::<(), Error>(Error::InvalidPauseTransition)
                && *final(self) == *old(self),
            r is Ok ==> !final(self).is_paused(),
    {
        if self.paused {
            self.paused = false;
            Ok(())
        } else {
            Err(Error::InvalidPauseTransition)
        }
    }
}

} // verus!
