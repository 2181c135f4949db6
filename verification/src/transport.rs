//! The life of one child transport, as a state machine: spawned once,
//! ready until closed, and closing is idempotent.

use vstd::prelude::*;

verus! {

/// Where a transport stands.
#[derive(Debug, Clone, Copy, PartialEq, Eq, Structural)]
pub enum TransportState {
    /// Not spawned yet.
    Uninit,
    /// The child runs and its pipes are open.
    Ready,
    /// The child was shut down; nothing more can be written.
    Closed,
}

/// Tracks one transport's state: writes are allowed exactly while it is
/// ready.
#[derive(Debug)]
pub struct TransportGate {
    state: TransportState,
}

impl TransportGate {
    /// The current state.
    pub closed spec fn state(&self) -> TransportState {
        self.state
    }

    /// A transport that has not been spawned.
    pub fn new() -> (r: Self)
        ensures
            r.state() is Uninit,
    {
        TransportGate { state: TransportState::Uninit }
    }

    /// Record a successful spawn: only an unspawned transport becomes
    /// ready; spawning again changes nothing.
    pub fn connect(&mut self)
        ensures
            final(self).state() == if old(self).state() is Uninit {
                TransportState::Ready
            } else {
                old(self).state()
            },
    {
        if let TransportState::Uninit = self.state {
            self.state = TransportState::Ready;
        }
    }

    /// Whether the transport accepts writes: exactly when it is ready.
    pub fn is_ready(&self) -> (r: bool)
        ensures
            r == (self.state() is Ready),
    {
        match self.state {
            TransportState::Ready => true,
            _ => false,
        }
    }

    /// Close the transport: closed afterwards, from any state, and closing
    /// a closed transport changes nothing.
    pub fn close(&mut self)
        ensures
            final(self).state() is Closed,
    {
        self.state = TransportState::Closed;
    }
}

} // verus!
