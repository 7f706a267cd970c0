//! The program under test: what every binding to a protocol stack offers to
//! the engine.

use crate::agent::AgentName;
use crate::policy::Claim;
use vstd::prelude::*;

verus! {

/// Why a program under test did not take bytes or give a record.
#[derive(Clone, Copy, Debug, PartialEq, Eq, Structural)]
pub enum PutError {
    /// The peer has closed the connection.
    ConnectionClosed,
    /// The peer refused what it was given.
    Rejected,
    /// The peer did not answer in the time that the driver allows.
    TimedOut,
}

/// What a program under test gives when it advances: its next outbound
/// record, and the claims that it makes about its state.
pub struct Progress {
    pub record: Vec<u8>,
    pub claims: Vec<Claim>,
}

/// One protocol stack, driven by the engine. The engine assumes nothing about
/// what an implementation returns.
pub trait Put {
    /// Advances the state of the peer and flushes its next outbound record.
    fn progress(&mut self, agent: AgentName) -> Result<Progress, PutError>;

    /// Feeds inbound bytes to the peer.
    fn deliver(&mut self, agent: AgentName, bytes: &Vec<u8>) -> Result<(), PutError>;

    /// Brings the peer back to its initial state.
    fn reset(&mut self);

    /// Has the peer reached the state that ends a successful handshake?
    fn is_state_successful(&self) -> bool;
}

} // verus!
