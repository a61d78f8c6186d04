//! Transaction-manager (coordinator) actor: one per transaction.
//!
//! The actor's behaviour is given by the pure transition function
//! [`tm_step`] over the ghost model [`TmModel`]; every executable entry
//! point is proved to implement exactly one step of it.  The coordinator
//! drives the classic two-phase-commit schedule: gather votes in the
//! prepare phase, fix a decision, deliver it to every participant, and
//! finish once every participant has acknowledged it.
//!
//! Crash recovery (`restart`) keeps the fixed decision and the record of
//! received acknowledgements: they stand in for the durable decision log
//! a production coordinator would write before sending the decision.  A
//! coordinator that had not yet fixed a decision reverts to `TMInit` and
//! waits for the begin input to be driven again.

use vstd::prelude::*;

use crate::msg::Decision;
use crate::msg::MsgToRM;
use crate::msg::MsgToTM;
use crate::msg::TMState;
use crate::msg::Vote;

verus! {

/// One outbound protocol message produced by a coordinator: addressed to
/// the resource manager of the same transaction on node `dest`.
#[derive(Clone, Copy, PartialEq, Eq, Structural, Debug)]
pub struct TmOut {
    pub dest: u64,
    pub msg: MsgToRM,
}

/// Mathematical state of a coordinator: its protocol state, the recorded
/// participant set, and which participants have voted yes or acknowledged
/// the decision.
pub ghost struct TmModel {
    pub state: TMState,
    pub participants: Seq<u64>,
    pub yes_voted: Seq<u64>,
    pub acked: Seq<u64>,
}

/// One input consumed by the coordinator state machine.
pub ghost enum TmAct {
    /// The triggering begin input, carrying the participant set.
    Begin { participants: Seq<u64> },
    /// A participant's vote.
    Vote { source: u64, vote: Vote },
    /// A participant's acknowledgement of the decision.
    Ack { source: u64 },
    /// The bounded wait for votes has elapsed.
    Timeout,
    /// Crash and recover.
    Restart,
}

/// Result of one coordinator step: the successor model, the messages to
/// send, and whether the actor reached its terminal state in this step.
pub ghost struct TmStep {
    pub post: TmModel,
    pub out: Seq<TmOut>,
    pub finished: bool,
}

/// The model of a freshly created coordinator.
pub open spec fn fresh_tm() -> TmModel {
    TmModel {
        state: TMState::TMInvalid,
        participants: Seq::empty(),
        yes_voted: Seq::empty(),
        acked: Seq::empty(),
    }
}

/// Every element of `parts` occurs in `got`.
pub open spec fn covers(parts: Seq<u64>, got: Seq<u64>) -> bool {
    forall|p: u64| #[trigger] parts.contains(p) ==> got.contains(p)
}

/// One prepare request per participant, in participant order.
pub open spec fn prepares_to(parts: Seq<u64>) -> Seq<TmOut> {
    Seq::new(parts.len(), |i: int| TmOut { dest: parts[i], msg: MsgToRM::Prepare })
}

/// One copy of the decision `d` per participant, in participant order.
pub open spec fn decisions_to(parts: Seq<u64>, d: Decision) -> Seq<TmOut> {
    Seq::new(parts.len(), |i: int| TmOut { dest: parts[i], msg: MsgToRM::Decision(d) })
}

/// A step that changes nothing, sends nothing, and finishes nothing: how
/// the coordinator treats duplicate and stray inputs.
pub open spec fn tm_stutter(m: TmModel) -> TmStep {
    TmStep { post: m, out: Seq::empty(), finished: false }
}

/// The decision the coordinator is currently delivering, if any.
pub open spec fn tm_decided(m: TmModel) -> Option<Decision> {
    match m.state {
        TMState::TMCommitting => Some(Decision::Commit),
        TMState::TMAborting => Some(Decision::Abort),
        _ => None,
    }
}

/// The coordinator transition function.
///
/// A vote is counted only from a recorded participant and only while
/// preparing; a negative vote, or a timeout while any vote is missing,
/// fixes abort; commit is fixed exactly when every participant has voted
/// yes.  Acknowledgements are counted only while a decision is being
/// delivered, and the actor finishes exactly when every participant has
/// acknowledged.  An actor in `TMEnd` ignores every input.
pub open spec fn tm_step(m: TmModel, a: TmAct) -> TmStep {
    match a {
        TmAct::Begin { participants } => {
            if m.state is TMInvalid || m.state is TMInit {
                TmStep {
                    post: TmModel {
                        state: TMState::TMPreparing,
                        participants: participants,
                        yes_voted: Seq::empty(),
                        acked: Seq::empty(),
                    },
                    out: prepares_to(participants),
                    finished: false,
                }
            } else {
                tm_stutter(m)
            }
        },
        TmAct::Vote { source, vote } => {
            if m.state is TMPreparing && m.participants.contains(source) {
                if vote is No {
                    TmStep {
                        post: TmModel {
                            state: TMState::TMAborting,
                            participants: m.participants,
                            yes_voted: m.yes_voted,
                            acked: Seq::empty(),
                        },
                        out: decisions_to(m.participants, Decision::Abort),
                        finished: false,
                    }
                } else {
                    let yv = if m.yes_voted.contains(source) {
                        m.yes_voted
                    } else {
                        m.yes_voted.push(source)
                    };
                    if covers(m.participants, yv) {
                        TmStep {
                            post: TmModel {
                                state: TMState::TMCommitting,
                                participants: m.participants,
                                yes_voted: yv,
                                acked: Seq::empty(),
                            },
                            out: decisions_to(m.participants, Decision::Commit),
                            finished: false,
                        }
                    } else {
                        TmStep {
                            post: TmModel {
                                state: TMState::TMPreparing,
                                participants: m.participants,
                                yes_voted: yv,
                                acked: m.acked,
                            },
                            out: Seq::empty(),
                            finished: false,
                        }
                    }
                }
            } else {
                tm_stutter(m)
            }
        },
        TmAct::Ack { source } => {
            if (m.state is TMCommitting || m.state is TMAborting) && m.participants.contains(
                source,
            ) {
                let ak = if m.acked.contains(source) {
                    m.acked
                } else {
                    m.acked.push(source)
                };
                if covers(m.participants, ak) {
                    TmStep {
                        post: TmModel {
                            state: TMState::TMEnd,
                            participants: m.participants,
                            yes_voted: m.yes_voted,
                            acked: ak,
                        },
                        out: Seq::empty(),
                        finished: true,
                    }
                } else {
                    TmStep {
                        post: TmModel {
                            state: m.state,
                            participants: m.participants,
                            yes_voted: m.yes_voted,
                            acked: ak,
                        },
                        out: Seq::empty(),
                        finished: false,
                    }
                }
            } else {
                tm_stutter(m)
            }
        },
        TmAct::Timeout => {
            if m.state is TMPreparing {
                TmStep {
                    post: TmModel {
                        state: TMState::TMAborting,
                        participants: m.participants,
                        yes_voted: m.yes_voted,
                        acked: Seq::empty(),
                    },
                    out: decisions_to(m.participants, Decision::Abort),
                    finished: false,
                }
            } else {
                tm_stutter(m)
            }
        },
        TmAct::Restart => {
            match m.state {
                TMState::TMCommitting => TmStep {
                    post: m,
                    out: decisions_to(m.participants, Decision::Commit),
                    finished: false,
                },
                TMState::TMAborting => TmStep {
                    post: m,
                    out: decisions_to(m.participants, Decision::Abort),
                    finished: false,
                },
                TMState::TMEnd => tm_stutter(m),
                _ => TmStep {
                    post: TmModel {
                        state: TMState::TMInit,
                        participants: m.participants,
                        yes_voted: Seq::empty(),
                        acked: Seq::empty(),
                    },
                    out: Seq::empty(),
                    finished: false,
                },
            }
        },
    }
}

/// The input a protocol message to the coordinator stands for.
pub open spec fn tm_act_of(msg: MsgToTM, source: u64) -> TmAct {
    match msg {
        MsgToTM::Vote(v) => TmAct::Vote { source: source, vote: v },
        MsgToTM::Ack => TmAct::Ack { source: source },
    }
}

/// State forcibly installed by the `Setup` testing command.  Installing
/// `TMCommitting` also installs the vote record a real commit requires,
/// so that the protocol invariant keeps holding.
pub open spec fn tm_setup(m: TmModel, s: TMState) -> TmModel {
    match s {
        TMState::TMCommitting => TmModel {
            state: s,
            participants: m.participants,
            yes_voted: m.participants,
            acked: Seq::empty(),
        },
        TMState::TMAborting => TmModel {
            state: s,
            participants: m.participants,
            yes_voted: m.yes_voted,
            acked: Seq::empty(),
        },
        TMState::TMEnd => TmModel {
            state: s,
            participants: m.participants,
            yes_voted: m.yes_voted,
            acked: m.acked,
        },
        _ => TmModel {
            state: s,
            participants: m.participants,
            yes_voted: Seq::empty(),
            acked: Seq::empty(),
        },
    }
}

/// Protocol invariant of a coordinator: commit is only ever delivered
/// when every participant has voted yes.
pub open spec fn tm_inv(m: TmModel) -> bool {
    m.state is TMCommitting ==> covers(m.participants, m.yes_voted)
}

/// Every reachable step preserves the coordinator invariant.
pub proof fn lemma_tm_step_inv(m: TmModel, a: TmAct)
    requires
        tm_inv(m),
    ensures
        tm_inv(tm_step(m, a).post),
{
}

/// `Setup` preserves the coordinator invariant.
pub proof fn lemma_tm_setup_inv(m: TmModel, s: TMState)
    ensures
        tm_inv(tm_setup(m, s)),
{
}

/// Effects of one executable coordinator step.
pub struct TmEffects {
    pub outbound: Vec<TmOut>,
    pub finished: bool,
}

/// The coordinator actor.  `channel` is the outbound transport channel
/// assigned at creation; `node_id` and `xid` identify the actor and never
/// change.
pub struct TxTM {
    pub node_id: u64,
    pub xid: u64,
    pub channel: usize,
    pub state: TMState,
    pub participants: Vec<u64>,
    pub yes_voted: Vec<u64>,
    pub acked: Vec<u64>,
}

impl View for TxTM {
    type V = TmModel;

    open spec fn view(&self) -> TmModel {
        TmModel {
            state: self.state,
            participants: self.participants@,
            yes_voted: self.yes_voted@,
            acked: self.acked@,
        }
    }
}

/// The identity of the actor (node, transaction, channel) is unchanged.
pub open spec fn tm_same_identity(pre: TxTM, post: TxTM) -> bool {
    &&& post.node_id == pre.node_id
    &&& post.xid == pre.xid
    &&& post.channel == pre.channel
}

/// True iff `v@` contains `x`.
pub fn vec_contains(v: &Vec<u64>, x: u64) -> (r: bool)
    ensures
        r == v@.contains(x),
{
    let mut i: usize = 0;
    while i < v.len()
        invariant
            i <= v@.len(),
            forall|j: int| 0 <= j < i ==> v@[j] != x,
        decreases v@.len() - i,
    {
        if v[i] == x {
            return true;
        }
        i = i + 1;
    }
    false
}

/// True iff every element of `parts` occurs in `got`.
pub fn vec_covers(parts: &Vec<u64>, got: &Vec<u64>) -> (r: bool)
    ensures
        r == covers(parts@, got@),
{
    let mut i: usize = 0;
    while i < parts.len()
        invariant
            i <= parts@.len(),
            forall|j: int| 0 <= j < i ==> got@.contains(parts@[j]),
        decreases parts@.len() - i,
    {
        if !vec_contains(got, parts[i]) {
            assert(parts@.contains(parts@[i as int]));
            return false;
        }
        i = i + 1;
    }
    proof {
        assert forall|p: u64| #[trigger] parts@.contains(p) implies got@.contains(p) by {
            let j = choose|j: int| 0 <= j < parts@.len() && parts@[j] == p;
            assert(got@.contains(parts@[j]));
        }
    }
    true
}

/// One prepare request per participant.
fn build_prepares(parts: &Vec<u64>) -> (r: Vec<TmOut>)
    ensures
        r@ == prepares_to(parts@),
{
    let mut r: Vec<TmOut> = Vec::new();
    let mut i: usize = 0;
    while i < parts.len()
        invariant
            i <= parts@.len(),
            r@.len() == i,
            forall|j: int| 0 <= j < i ==> r@[j] == (TmOut { dest: parts@[j], msg: MsgToRM::Prepare }),
        decreases parts@.len() - i,
    {
        r.push(TmOut { dest: parts[i], msg: MsgToRM::Prepare });
        i = i + 1;
    }
    proof {
        assert(r@ =~= prepares_to(parts@));
    }
    r
}

/// One copy of the decision `d` per participant.
fn build_decisions(parts: &Vec<u64>, d: Decision) -> (r: Vec<TmOut>)
    ensures
        r@ == decisions_to(parts@, d),
{
    let mut r: Vec<TmOut> = Vec::new();
    let mut i: usize = 0;
    while i < parts.len()
        invariant
            i <= parts@.len(),
            r@.len() == i,
            forall|j: int|
                0 <= j < i ==> r@[j] == (TmOut { dest: parts@[j], msg: MsgToRM::Decision(d) }),
        decreases parts@.len() - i,
    {
        r.push(TmOut { dest: parts[i], msg: MsgToRM::Decision(d) });
        i = i + 1;
    }
    proof {
        assert(r@ =~= decisions_to(parts@, d));
    }
    r
}

impl TxTM {
    /// A coordinator created on first reference: no protocol activity yet.
    pub fn new(node_id: u64, xid: u64, channel: usize) -> (r: Self)
        ensures
            r@ == fresh_tm(),
            r.node_id == node_id,
            r.xid == xid,
            r.channel == channel,
    {
        TxTM {
            node_id,
            xid,
            channel,
            state: TMState::TMInvalid,
            participants: Vec::new(),
            yes_voted: Vec::new(),
            acked: Vec::new(),
        }
    }

    /// The begin input: record the participant set and enter the prepare
    /// phase, requesting a vote from every participant.
    pub fn begin(&mut self, participants: Vec<u64>) -> (r: TmEffects)
        ensures
            ({
                let s = tm_step(old(self)@, TmAct::Begin { participants: participants@ });
                &&& final(self)@ == s.post
                &&& r.outbound@ == s.out
                &&& r.finished == s.finished
                &&& tm_same_identity(*old(self), *final(self))
            }),
    {
        match self.state {
            TMState::TMInvalid | TMState::TMInit => {
                let out = build_prepares(&participants);
                self.state = TMState::TMPreparing;
                self.participants = participants;
                self.yes_voted = Vec::new();
                self.acked = Vec::new();
                TmEffects { outbound: out, finished: false }
            },
            _ => TmEffects { outbound: Vec::new(), finished: false },
        }
    }

    /// The single protocol entry point: consume one vote or one
    /// acknowledgement and advance the state machine.
    pub fn recv_msg(&mut self, msg: MsgToTM, source: u64) -> (r: TmEffects)
        ensures
            ({
                let s = tm_step(old(self)@, tm_act_of(msg, source));
                &&& final(self)@ == s.post
                &&& r.outbound@ == s.out
                &&& r.finished == s.finished
                &&& tm_same_identity(*old(self), *final(self))
            }),
    {
        match msg {
            MsgToTM::Vote(v) => {
                let in_preparing = match self.state {
                    TMState::TMPreparing => true,
                    _ => false,
                };
                if in_preparing && vec_contains(&self.participants, source) {
                    if v == Vote::No {
                        self.state = TMState::TMAborting;
                        self.acked = Vec::new();
                        let out = build_decisions(&self.participants, Decision::Abort);
                        TmEffects { outbound: out, finished: false }
                    } else {
                        if !vec_contains(&self.yes_voted, source) {
                            self.yes_voted.push(source);
                        }
                        if vec_covers(&self.participants, &self.yes_voted) {
                            self.state = TMState::TMCommitting;
                            self.acked = Vec::new();
                            let out = build_decisions(&self.participants, Decision::Commit);
                            TmEffects { outbound: out, finished: false }
                        } else {
                            TmEffects { outbound: Vec::new(), finished: false }
                        }
                    }
                } else {
                    TmEffects { outbound: Vec::new(), finished: false }
                }
            },
            MsgToTM::Ack => {
                let deciding = match self.state {
                    TMState::TMCommitting | TMState::TMAborting => true,
                    _ => false,
                };
                if deciding && vec_contains(&self.participants, source) {
                    if !vec_contains(&self.acked, source) {
                        self.acked.push(source);
                    }
                    if vec_covers(&self.participants, &self.acked) {
                        self.state = TMState::TMEnd;
                        TmEffects { outbound: Vec::new(), finished: true }
                    } else {
                        TmEffects { outbound: Vec::new(), finished: false }
                    }
                } else {
                    TmEffects { outbound: Vec::new(), finished: false }
                }
            },
        }
    }

    /// The bounded wait for votes has elapsed: any missing vote forces
    /// abort.
    pub fn timeout(&mut self) -> (r: TmEffects)
        ensures
            ({
                let s = tm_step(old(self)@, TmAct::Timeout);
                &&& final(self)@ == s.post
                &&& r.outbound@ == s.out
                &&& r.finished == s.finished
                &&& tm_same_identity(*old(self), *final(self))
            }),
    {
        match self.state {
            TMState::TMPreparing => {
                self.state = TMState::TMAborting;
                self.acked = Vec::new();
                let out = build_decisions(&self.participants, Decision::Abort);
                TmEffects { outbound: out, finished: false }
            },
            _ => TmEffects { outbound: Vec::new(), finished: false },
        }
    }

    /// Crash and recover.  A fixed decision is kept and re-delivered to
    /// every participant; without one the coordinator reverts to `TMInit`.
    pub fn restart(&mut self) -> (r: TmEffects)
        ensures
            ({
                let s = tm_step(old(self)@, TmAct::Restart);
                &&& final(self)@ == s.post
                &&& r.outbound@ == s.out
                &&& r.finished == s.finished
                &&& tm_same_identity(*old(self), *final(self))
            }),
    {
        match self.state {
            TMState::TMCommitting => {
                let out = build_decisions(&self.participants, Decision::Commit);
                TmEffects { outbound: out, finished: false }
            },
            TMState::TMAborting => {
                let out = build_decisions(&self.participants, Decision::Abort);
                TmEffects { outbound: out, finished: false }
            },
            TMState::TMEnd => TmEffects { outbound: Vec::new(), finished: false },
            _ => {
                self.state = TMState::TMInit;
                self.yes_voted = Vec::new();
                self.acked = Vec::new();
                TmEffects { outbound: Vec::new(), finished: false }
            },
        }
    }

    /// Testing hook: compare the actor's state with the expected one;
    /// never mutates.
    pub fn check_tm(&self, expected: TMState) -> (r: bool)
        ensures
            r == (self.state == expected),
    {
        self.state == expected
    }

    /// Testing hook: forcibly install a protocol state.
    pub fn setup_tm(&mut self, s: TMState)
        ensures
            final(self)@ == tm_setup(old(self)@, s),
            tm_same_identity(*old(self), *final(self)),
    {
        match s {
            TMState::TMCommitting => {
                self.yes_voted = self.participants.clone();
                self.acked = Vec::new();
            },
            TMState::TMAborting => {
                self.acked = Vec::new();
            },
            TMState::TMEnd => {},
            _ => {
                self.yes_voted = Vec::new();
                self.acked = Vec::new();
            },
        }
        self.state = s;
    }
}

} // verus!
