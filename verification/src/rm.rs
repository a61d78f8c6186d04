//! Resource-manager (participant) actor: one per transaction.
//!
//! The actor's behaviour is given by the pure transition function
//! [`rm_step`] over the ghost model [`RmModel`]; every executable entry
//! point is proved to implement exactly one step of it.  A participant
//! votes when asked to prepare, applies exactly the decision the
//! coordinator delivers, acknowledges it, and then finishes: the
//! acknowledgement is fire-and-forget, so sending it counts as delivered
//! and retransmission is the coordinator's responsibility.
//!
//! The participant's local readiness — whether it will vote yes — is an
//! application-defined predicate outside this protocol, so the actor
//! takes it as the plain value `ready` fixed at creation.
//!
//! Crash recovery (`restart`): a participant that had applied a decision
//! re-enters `RMDecided` and re-sends its acknowledgement to the last
//! known coordinator; one that had not reverts to `RMInvalid` and must
//! not spontaneously vote or guess a decision.  A finished participant is
//! already awaiting reclamation and stays silent.

use vstd::prelude::*;

use crate::msg::Decision;
use crate::msg::MsgToRM;
use crate::msg::MsgToTM;
use crate::msg::RMState;
use crate::msg::Vote;

verus! {

/// One outbound protocol message produced by a participant: addressed to
/// the transaction manager of the same transaction on node `dest`.
#[derive(Clone, Copy, PartialEq, Eq, Structural, Debug)]
pub struct RmOut {
    pub dest: u64,
    pub msg: MsgToTM,
}

/// Mathematical state of a participant: its protocol state, its local
/// readiness, and the last known coordinator node.
pub ghost struct RmModel {
    pub state: RMState,
    pub ready: bool,
    pub coord: Option<u64>,
}

/// One input consumed by the participant state machine.
pub ghost enum RmAct {
    /// A prepare request from the coordinator on node `source`.
    Prepare { source: u64 },
    /// The coordinator's decision.
    Decide { source: u64, decision: Decision },
    /// Crash and recover.
    Restart,
}

/// Result of one participant step.
pub ghost struct RmStep {
    pub post: RmModel,
    pub out: Seq<RmOut>,
    pub finished: bool,
}

/// The model of a freshly created participant with readiness `ready`.
pub open spec fn fresh_rm(ready: bool) -> RmModel {
    RmModel { state: RMState::RMInvalid, ready: ready, coord: None }
}

/// A step that changes nothing, sends nothing, and finishes nothing: how
/// the participant treats duplicate and stray inputs.
pub open spec fn rm_stutter(m: RmModel) -> RmStep {
    RmStep { post: m, out: Seq::empty(), finished: false }
}

/// The vote a participant with readiness `ready` casts.
pub open spec fn vote_of(ready: bool) -> Vote {
    if ready {
        Vote::Yes
    } else {
        Vote::No
    }
}

/// The participant transition function.
///
/// A prepare request makes an idle participant vote; a prepared one
/// re-sends the vote it already cast (idempotent, so a recovering
/// coordinator can re-drive the prepare phase).  The first decision
/// received is applied and acknowledged, after which the actor finishes;
/// a participant whose decision was installed by `Setup` completes the
/// same way when the matching decision arrives.  An actor in `RMEnd`
/// ignores every input.
pub open spec fn rm_step(m: RmModel, a: RmAct) -> RmStep {
    match a {
        RmAct::Prepare { source } => {
            match m.state {
                RMState::RMInvalid => {
                    let v = vote_of(m.ready);
                    RmStep {
                        post: RmModel {
                            state: RMState::RMPrepared(v),
                            ready: m.ready,
                            coord: Some(source),
                        },
                        out: seq![RmOut { dest: source, msg: MsgToTM::Vote(v) }],
                        finished: false,
                    }
                },
                RMState::RMPrepared(v) => RmStep {
                    post: RmModel { state: m.state, ready: m.ready, coord: Some(source) },
                    out: seq![RmOut { dest: source, msg: MsgToTM::Vote(v) }],
                    finished: false,
                },
                _ => rm_stutter(m),
            }
        },
        RmAct::Decide { source, decision } => {
            match m.state {
                RMState::RMPrepared(_) => RmStep {
                    post: RmModel { state: RMState::RMEnd, ready: m.ready, coord: Some(source) },
                    out: seq![RmOut { dest: source, msg: MsgToTM::Ack }],
                    finished: true,
                },
                RMState::RMDecided(d) => {
                    if d == decision {
                        RmStep {
                            post: RmModel {
                                state: RMState::RMEnd,
                                ready: m.ready,
                                coord: Some(source),
                            },
                            out: seq![RmOut { dest: source, msg: MsgToTM::Ack }],
                            finished: true,
                        }
                    } else {
                        rm_stutter(m)
                    }
                },
                _ => rm_stutter(m),
            }
        },
        RmAct::Restart => {
            match m.state {
                RMState::RMInvalid | RMState::RMPrepared(_) => RmStep {
                    post: RmModel { state: RMState::RMInvalid, ready: m.ready, coord: None },
                    out: Seq::empty(),
                    finished: false,
                },
                RMState::RMDecided(_) => {
                    match m.coord {
                        Some(c) => RmStep {
                            post: m,
                            out: seq![RmOut { dest: c, msg: MsgToTM::Ack }],
                            finished: false,
                        },
                        None => rm_stutter(m),
                    }
                },
                RMState::RMEnd => rm_stutter(m),
            }
        },
    }
}

/// The input a protocol message to the participant stands for.
pub open spec fn rm_act_of(msg: MsgToRM, source: u64) -> RmAct {
    match msg {
        MsgToRM::Prepare => RmAct::Prepare { source: source },
        MsgToRM::Decision(d) => RmAct::Decide { source: source, decision: d },
    }
}

/// Effects of one executable participant step.
pub struct RmEffects {
    pub outbound: Vec<RmOut>,
    pub finished: bool,
}

/// The participant actor.  `channel` is the outbound transport channel
/// assigned at creation; `node_id` and `xid` identify the actor and never
/// change.
pub struct TxRM {
    pub node_id: u64,
    pub xid: u64,
    pub channel: usize,
    pub ready: bool,
    pub state: RMState,
    pub coord: Option<u64>,
}

impl View for TxRM {
    type V = RmModel;

    open spec fn view(&self) -> RmModel {
        RmModel { state: self.state, ready: self.ready, coord: self.coord }
    }
}

/// The identity of the actor (node, transaction, channel) is unchanged.
pub open spec fn rm_same_identity(pre: TxRM, post: TxRM) -> bool {
    &&& post.node_id == pre.node_id
    &&& post.xid == pre.xid
    &&& post.channel == pre.channel
}

impl TxRM {
    /// A participant created on first reference: no protocol activity yet.
    pub fn new(node_id: u64, xid: u64, channel: usize, ready: bool) -> (r: Self)
        ensures
            r@ == fresh_rm(ready),
            r.node_id == node_id,
            r.xid == xid,
            r.channel == channel,
    {
        TxRM { node_id, xid, channel, ready, state: RMState::RMInvalid, coord: None }
    }

    /// The single protocol entry point: consume one prepare request or
    /// one decision and advance the state machine.
    pub fn recv_msg(&mut self, msg: MsgToRM, source: u64) -> (r: RmEffects)
        ensures
            ({
                let s = rm_step(old(self)@, rm_act_of(msg, source));
                &&& final(self)@ == s.post
                &&& r.outbound@ == s.out
                &&& r.finished == s.finished
                &&& rm_same_identity(*old(self), *final(self))
                &&& final(self).ready == old(self).ready
            }),
    {
        match msg {
            MsgToRM::Prepare => {
                match self.state {
                    RMState::RMInvalid => {
                        let v = if self.ready {
                            Vote::Yes
                        } else {
                            Vote::No
                        };
                        self.state = RMState::RMPrepared(v);
                        self.coord = Some(source);
                        let mut out: Vec<RmOut> = Vec::new();
                        out.push(RmOut { dest: source, msg: MsgToTM::Vote(v) });
                        proof {
                            assert(out@ =~= rm_step(
                                old(self)@,
                                rm_act_of(msg, source),
                            ).out);
                        }
                        RmEffects { outbound: out, finished: false }
                    },
                    RMState::RMPrepared(v) => {
                        self.coord = Some(source);
                        let mut out: Vec<RmOut> = Vec::new();
                        out.push(RmOut { dest: source, msg: MsgToTM::Vote(v) });
                        proof {
                            assert(out@ =~= rm_step(
                                old(self)@,
                                rm_act_of(msg, source),
                            ).out);
                        }
                        RmEffects { outbound: out, finished: false }
                    },
                    _ => RmEffects { outbound: Vec::new(), finished: false },
                }
            },
            MsgToRM::Decision(d) => {
                let take = match self.state {
                    RMState::RMPrepared(_) => true,
                    RMState::RMDecided(prior) => prior == d,
                    _ => false,
                };
                if take {
                    self.state = RMState::RMEnd;
                    self.coord = Some(source);
                    let mut out: Vec<RmOut> = Vec::new();
                    out.push(RmOut { dest: source, msg: MsgToTM::Ack });
                    proof {
                        assert(out@ =~= rm_step(old(self)@, rm_act_of(msg, source)).out);
                    }
                    RmEffects { outbound: out, finished: true }
                } else {
                    RmEffects { outbound: Vec::new(), finished: false }
                }
            },
        }
    }

    /// Crash and recover.  An applied decision is kept and re-acknowledged;
    /// without one the participant reverts to `RMInvalid`.
    pub fn restart(&mut self) -> (r: RmEffects)
        ensures
            ({
                let s = rm_step(old(self)@, RmAct::Restart);
                &&& final(self)@ == s.post
                &&& r.outbound@ == s.out
                &&& r.finished == s.finished
                &&& rm_same_identity(*old(self), *final(self))
                &&& final(self).ready == old(self).ready
            }),
    {
        match self.state {
            RMState::RMInvalid | RMState::RMPrepared(_) => {
                self.state = RMState::RMInvalid;
                self.coord = None;
                RmEffects { outbound: Vec::new(), finished: false }
            },
            RMState::RMDecided(_) => {
                match self.coord {
                    Some(c) => {
                        let mut out: Vec<RmOut> = Vec::new();
                        out.push(RmOut { dest: c, msg: MsgToTM::Ack });
                        proof {
                            assert(out@ =~= rm_step(old(self)@, RmAct::Restart).out);
                        }
                        RmEffects { outbound: out, finished: false }
                    },
                    None => RmEffects { outbound: Vec::new(), finished: false },
                }
            },
            RMState::RMEnd => RmEffects { outbound: Vec::new(), finished: false },
        }
    }

    /// Testing hook: compare the actor's state with the expected one;
    /// never mutates.
    pub fn check_rm(&self, expected: RMState) -> (r: bool)
        ensures
            r == (self.state == expected),
    {
        self.state == expected
    }

    /// Testing hook: forcibly install a protocol state.  Readiness and
    /// the remembered coordinator are left as they are.
    pub fn setup_rm(&mut self, s: RMState)
        ensures
            final(self)@ == (RmModel { state: s, ready: old(self).ready, coord: old(self).coord }),
            rm_same_identity(*old(self), *final(self)),
    {
        self.state = s;
    }
}

} // verus!
