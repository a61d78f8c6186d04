//! Protocol message model: the typed envelopes exchanged between the
//! transaction-manager and resource-manager actors, the testing-command
//! payloads injected by an external test driver, and the completion
//! events by which actors announce termination to the hub.

use vstd::prelude::*;

verus! {

/// A participant's vote in the prepare phase.
#[derive(Clone, Copy, PartialEq, Eq, Structural, Debug)]
pub enum Vote {
    Yes,
    No,
}

/// The coordinator's fixed outcome for a transaction.
#[derive(Clone, Copy, PartialEq, Eq, Structural, Debug)]
pub enum Decision {
    Commit,
    Abort,
}

/// States of the transaction-manager (coordinator) actor.
#[derive(Clone, Copy, PartialEq, Eq, Structural, Debug)]
pub enum TMState {
    TMInvalid,
    TMInit,
    TMPreparing,
    TMCommitting,
    TMAborting,
    TMEnd,
}

/// States of the resource-manager (participant) actor.
#[derive(Clone, Copy, PartialEq, Eq, Structural, Debug)]
pub enum RMState {
    RMInvalid,
    RMPrepared(Vote),
    RMDecided(Decision),
    RMEnd,
}

/// A protocol message addressed to a resource manager.
#[derive(Clone, Copy, PartialEq, Eq, Structural, Debug)]
pub enum MsgToRM {
    /// Request to prepare: the participant must vote.
    Prepare,
    /// The coordinator's decision for the transaction.
    Decision(Decision),
}

/// A protocol message addressed to a transaction manager.
#[derive(Clone, Copy, PartialEq, Eq, Structural, Debug)]
pub enum MsgToTM {
    /// A participant's vote.
    Vote(Vote),
    /// A participant's acknowledgement of the decision.
    Ack,
}

/// Expected or installed actor states, as carried by the `Setup` and
/// `Check` testing commands: one `(xid, state)` pair per addressed actor.
#[derive(Clone, Debug)]
pub struct MTState {
    pub tm_state: Vec<(u64, TMState)>,
    pub rm_state: Vec<(u64, RMState)>,
}

/// Commands the external test driver may inject, delivered through the
/// same channel as protocol traffic.
#[derive(Clone, Debug)]
pub enum DTMTesting {
    /// Crash-and-recover every live actor on the node.
    Restart,
    /// Forcibly install the named actors' states.
    Setup(MTState),
    /// Assert that the named actors' states match.
    Check(MTState),
    /// Drive the coordinator for `xid` into the prepare phase with the
    /// given participant set.
    TMBegin { xid: u64, participants: Vec<u64> },
    /// The coordinator's bounded wait for votes has elapsed.
    TMTimeout { xid: u64 },
}

/// The payload of one transport envelope.
#[derive(Clone, Debug)]
pub enum TxMsg {
    /// Addressed to the resource manager for `xid`.
    ToRM { xid: u64, msg: MsgToRM },
    /// Addressed to the transaction manager for `xid`.
    ToTM { xid: u64, msg: MsgToTM },
    /// Addressed to the testing control plane.
    Testing(DTMTesting),
}

/// The unit of transport: a payload with its source and destination node.
#[derive(Clone, Debug)]
pub struct Envelope {
    pub source: u64,
    pub dest: u64,
    pub payload: TxMsg,
}

/// An envelope paired with the outbound transport channel it is to be
/// sent on (channel selection is a fan-out policy, not part of the
/// protocol).
#[derive(Clone, Debug)]
pub struct Outbound {
    pub channel: usize,
    pub envelope: Envelope,
}

/// Completion event: the actor for `xid` reached its terminal state and
/// may be reclaimed by the hub.
#[derive(Clone, Copy, PartialEq, Eq, Structural, Debug)]
pub enum TxCoordEvent {
    TMEnd(u64),
    RMEnd(u64),
}

} // verus!
