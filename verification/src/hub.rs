//! The per-node coordination hub: the single authority for actor
//! lifecycle and message dispatch.
//!
//! The hub owns two tables, one mapping a transaction id to its
//! coordinator actor and one to its participant actor.  Routing a
//! message resolves the transaction id to an actor — creating one on
//! first reference, wired to an outbound transport channel chosen
//! uniformly at random — and delivers the payload; lookup and insert
//! form one atomic check-or-insert, so at most one actor per role ever
//! exists for a transaction id.  An actor that reaches its terminal
//! state announces a completion event, on which the hub removes it from
//! its table.
//!
//! The hub itself is purely reactive: [`TxCoordCommit::recv_msg`]
//! consumes one inbound payload and returns the envelopes to send, the
//! completion events produced, and the outcome of any `Check` command;
//! the surrounding event loops (transport receive, completion drain) are
//! ordinary asynchronous plumbing outside this library.

use vstd::prelude::*;

use std::collections::HashMap;

use crate::msg::DTMTesting;
use crate::msg::Envelope;
use crate::msg::MTState;
use crate::msg::MsgToRM;
use crate::msg::MsgToTM;
use crate::msg::Outbound;
use crate::msg::RMState;
use crate::msg::TMState;
use crate::msg::TxCoordEvent;
use crate::msg::TxMsg;
use crate::rm::fresh_rm;
use crate::rm::rm_act_of;
use crate::rm::rm_step;
use crate::rm::RmAct;
use crate::rm::RmModel;
use crate::rm::RmOut;
use crate::rm::TxRM;
use crate::tm::fresh_tm;
use crate::tm::lemma_tm_step_inv;
use crate::tm::tm_act_of;
use crate::tm::tm_inv;
use crate::tm::tm_setup;
use crate::tm::tm_step;
use crate::tm::vec_contains;
use crate::tm::TmAct;
use crate::tm::TmModel;
use crate::tm::TmOut;
use crate::tm::TxTM;

verus! {

broadcast use vstd::std_specs::hash::group_hash_axioms;

/// What routing one payload produced: envelopes to hand to the
/// transport, completion events for the drain loop, and whether every
/// state comparison a `Check` command asked for succeeded (`true` when
/// no comparison was asked for).
pub struct RouteOutput {
    pub outbound: Vec<Outbound>,
    pub events: Vec<TxCoordEvent>,
    pub check_ok: bool,
}

/// The per-node coordination hub.
pub struct TxCoordCommit {
    pub node_id: u64,
    pub n_channels: usize,
    pub rm_ready: bool,
    pub tm_map: HashMap<u64, TxTM>,
    pub rm_map: HashMap<u64, TxRM>,
    pub tm_xids: Vec<u64>,
    pub rm_xids: Vec<u64>,
}

/// The coordinator model the next step for `x` starts from: the stored
/// actor's, or a fresh actor's when `x` is unseen.
pub open spec fn tm_pre_model(h: TxCoordCommit, x: u64) -> TmModel {
    if h.tm_map@.contains_key(x) {
        h.tm_map@[x]@
    } else {
        fresh_tm()
    }
}

/// The participant model the next step for `x` starts from.
pub open spec fn rm_pre_model(h: TxCoordCommit, x: u64) -> RmModel {
    if h.rm_map@.contains_key(x) {
        h.rm_map@[x]@
    } else {
        fresh_rm(h.rm_ready)
    }
}

/// The hub's configuration (node identity, channel count, participant
/// readiness policy) is unchanged.
pub open spec fn hub_config_unchanged(pre: TxCoordCommit, post: TxCoordCommit) -> bool {
    &&& post.node_id == pre.node_id
    &&& post.n_channels == pre.n_channels
    &&& post.rm_ready == pre.rm_ready
}

/// The coordinator table after one routed message for `x`: exactly the
/// key `x` was added (if absent), its actor's model is now `model`, and
/// every other entry is untouched.
pub open spec fn tm_table_steps(
    pre: TxCoordCommit,
    post: TxCoordCommit,
    x: u64,
    model: TmModel,
) -> bool {
    &&& forall|y: u64|
        #![trigger post.tm_map@.contains_key(y)]
        #![trigger pre.tm_map@.contains_key(y)]
        post.tm_map@.contains_key(y) <==> (pre.tm_map@.contains_key(y) || y == x)
    &&& post.tm_map@.contains_key(x)
    &&& post.tm_map@[x]@ == model
    &&& forall|y: u64|
        y != x && #[trigger] pre.tm_map@.contains_key(y) ==> post.tm_map@[y] == pre.tm_map@[y]
}

/// The participant table after one routed message for `x`.
pub open spec fn rm_table_steps(
    pre: TxCoordCommit,
    post: TxCoordCommit,
    x: u64,
    model: RmModel,
) -> bool {
    &&& forall|y: u64|
        #![trigger post.rm_map@.contains_key(y)]
        #![trigger pre.rm_map@.contains_key(y)]
        post.rm_map@.contains_key(y) <==> (pre.rm_map@.contains_key(y) || y == x)
    &&& post.rm_map@.contains_key(x)
    &&& post.rm_map@[x]@ == model
    &&& forall|y: u64|
        y != x && #[trigger] pre.rm_map@.contains_key(y) ==> post.rm_map@[y] == pre.rm_map@[y]
}

/// The coordinator table is untouched.
pub open spec fn tm_table_unchanged(pre: TxCoordCommit, post: TxCoordCommit) -> bool {
    &&& post.tm_map@ == pre.tm_map@
    &&& post.tm_xids@ == pre.tm_xids@
}

/// The participant table is untouched.
pub open spec fn rm_table_unchanged(pre: TxCoordCommit, post: TxCoordCommit) -> bool {
    &&& post.rm_map@ == pre.rm_map@
    &&& post.rm_xids@ == pre.rm_xids@
}

/// The envelopes carrying a coordinator's outbound messages: each is
/// addressed from this node to the participant's node, as a
/// message-to-RM for the same transaction, on the sending actor's
/// channel.
pub open spec fn tm_envelopes(node: u64, xid: u64, ch: usize, outs: Seq<TmOut>) -> Seq<Outbound> {
    Seq::new(
        outs.len(),
        |i: int|
            Outbound {
                channel: ch,
                envelope: Envelope {
                    source: node,
                    dest: outs[i].dest,
                    payload: TxMsg::ToRM { xid: xid, msg: outs[i].msg },
                },
            },
    )
}

/// The envelopes carrying a participant's outbound messages.
pub open spec fn rm_envelopes(node: u64, xid: u64, ch: usize, outs: Seq<RmOut>) -> Seq<Outbound> {
    Seq::new(
        outs.len(),
        |i: int|
            Outbound {
                channel: ch,
                envelope: Envelope {
                    source: node,
                    dest: outs[i].dest,
                    payload: TxMsg::ToTM { xid: xid, msg: outs[i].msg },
                },
            },
    )
}

impl TxCoordCommit {
    /// Well-formedness of the hub: at least one transport channel; each
    /// table's key list holds exactly its keys, without duplicates; and
    /// every stored actor is keyed by its own transaction id, belongs to
    /// this node, holds a valid channel, and (for coordinators) satisfies
    /// the protocol invariant.
    pub open spec fn wf(&self) -> bool {
        &&& self.n_channels >= 1
        &&& self.tm_xids@.no_duplicates()
        &&& self.rm_xids@.no_duplicates()
        &&& forall|x: u64|
            #![trigger self.tm_map@.contains_key(x)]
            #![trigger self.tm_xids@.contains(x)]
            self.tm_map@.contains_key(x) <==> self.tm_xids@.contains(x)
        &&& forall|x: u64|
            #![trigger self.rm_map@.contains_key(x)]
            #![trigger self.rm_xids@.contains(x)]
            self.rm_map@.contains_key(x) <==> self.rm_xids@.contains(x)
        &&& forall|x: u64| #[trigger] self.tm_map@.contains_key(x) ==> {
            let t = self.tm_map@[x];
            &&& t.xid == x
            &&& t.node_id == self.node_id
            &&& t.channel < self.n_channels
            &&& tm_inv(t@)
        }
        &&& forall|x: u64| #[trigger] self.rm_map@.contains_key(x) ==> {
            let a = self.rm_map@[x];
            &&& a.xid == x
            &&& a.node_id == self.node_id
            &&& a.channel < self.n_channels
            &&& a.ready == self.rm_ready
        }
    }

    /// A hub for one node: empty tables, `n_channels` outbound transport
    /// channels to choose from, and the externally supplied readiness
    /// every participant created here will vote with.
    pub fn new(node_id: u64, n_channels: usize, rm_ready: bool) -> (r: Self)
        requires
            n_channels >= 1,
        ensures
            r.wf(),
            r.node_id == node_id,
            r.n_channels == n_channels,
            r.rm_ready == rm_ready,
            r.tm_map@ == Map::<u64, TxTM>::empty(),
            r.rm_map@ == Map::<u64, TxRM>::empty(),
    {
        TxCoordCommit {
            node_id,
            n_channels,
            rm_ready,
            tm_map: HashMap::new(),
            rm_map: HashMap::new(),
            tm_xids: Vec::new(),
            rm_xids: Vec::new(),
        }
    }

    /// The state of the coordinator for `x`, if one is live.
    pub fn tm_state_of(&self, x: u64) -> (r: Option<TMState>)
        ensures
            r == (if self.tm_map@.contains_key(x) {
                Some(self.tm_map@[x].state)
            } else {
                Option::<TMState>::None
            }),
    {
        match self.tm_map.get(&x) {
            Some(t) => Some(t.state),
            None => None,
        }
    }

    /// The state of the participant for `x`, if one is live.
    pub fn rm_state_of(&self, x: u64) -> (r: Option<RMState>)
        ensures
            r == (if self.rm_map@.contains_key(x) {
                Some(self.rm_map@[x].state)
            } else {
                Option::<RMState>::None
            }),
    {
        match self.rm_map.get(&x) {
            Some(a) => Some(a.state),
            None => None,
        }
    }

    /// Atomic check-or-insert on the coordinator table: the stored actor
    /// for `x`, or a freshly created one on miss.  Taken out of the
    /// table; the caller puts it back with `put_tm`.
    fn take_or_create_tm(&mut self, x: u64) -> (r: TxTM)
        requires
            old(self).wf(),
        ensures
            r@ == tm_pre_model(*old(self), x),
            old(self).tm_map@.contains_key(x) ==> r == old(self).tm_map@[x],
            r.xid == x,
            r.node_id == old(self).node_id,
            r.channel < old(self).n_channels,
            tm_inv(r@),
            hub_config_unchanged(*old(self), *final(self)),
            rm_table_unchanged(*old(self), *final(self)),
            final(self).tm_map@ == old(self).tm_map@.remove(x),
            final(self).tm_xids@.no_duplicates(),
            forall|y: u64| #[trigger]
                final(self).tm_xids@.contains(y) <==> (old(self).tm_xids@.contains(y) || y == x),
    {
        let opt = self.tm_map.remove(&x);
        match opt {
            Some(t) => {
                proof {
                    assert(old(self).tm_xids@.contains(x));
                    assert(final(self).tm_xids@ =~= old(self).tm_xids@);
                }
                t
            },
            None => {
                let ch = pick_channel(self.n_channels);
                proof {
                    assert(!old(self).tm_xids@.contains(x));
                }
                self.tm_xids.push(x);
                proof {
                    lemma_push_new_no_duplicates(old(self).tm_xids@, x);
                }
                TxTM::new(self.node_id, x, ch)
            },
        }
    }

    /// Put the actor for `x` back into the coordinator table.
    fn put_tm(&mut self, x: u64, t: TxTM)
        requires
            t.xid == x,
            t.node_id == old(self).node_id,
            t.channel < old(self).n_channels,
            tm_inv(t@),
        ensures
            hub_config_unchanged(*old(self), *final(self)),
            rm_table_unchanged(*old(self), *final(self)),
            final(self).tm_map@ == old(self).tm_map@.insert(x, t),
            final(self).tm_xids@ == old(self).tm_xids@,
    {
        self.tm_map.insert(x, t);
    }

    /// Atomic check-or-insert on the participant table.
    fn take_or_create_rm(&mut self, x: u64) -> (r: TxRM)
        requires
            old(self).wf(),
        ensures
            r@ == rm_pre_model(*old(self), x),
            old(self).rm_map@.contains_key(x) ==> r == old(self).rm_map@[x],
            r.xid == x,
            r.node_id == old(self).node_id,
            r.channel < old(self).n_channels,
            r.ready == old(self).rm_ready,
            hub_config_unchanged(*old(self), *final(self)),
            tm_table_unchanged(*old(self), *final(self)),
            final(self).rm_map@ == old(self).rm_map@.remove(x),
            final(self).rm_xids@.no_duplicates(),
            forall|y: u64| #[trigger]
                final(self).rm_xids@.contains(y) <==> (old(self).rm_xids@.contains(y) || y == x),
    {
        let opt = self.rm_map.remove(&x);
        match opt {
            Some(a) => {
                proof {
                    assert(old(self).rm_xids@.contains(x));
                    assert(final(self).rm_xids@ =~= old(self).rm_xids@);
                }
                a
            },
            None => {
                let ch = pick_channel(self.n_channels);
                proof {
                    assert(!old(self).rm_xids@.contains(x));
                }
                self.rm_xids.push(x);
                proof {
                    lemma_push_new_no_duplicates(old(self).rm_xids@, x);
                }
                TxRM::new(self.node_id, x, ch, self.rm_ready)
            },
        }
    }

    /// Put the actor for `x` back into the participant table.
    fn put_rm(&mut self, x: u64, a: TxRM)
        requires
            a.xid == x,
            a.node_id == old(self).node_id,
            a.channel < old(self).n_channels,
            a.ready == old(self).rm_ready,
        ensures
            hub_config_unchanged(*old(self), *final(self)),
            tm_table_unchanged(*old(self), *final(self)),
            final(self).rm_map@ == old(self).rm_map@.insert(x, a),
            final(self).rm_xids@ == old(self).rm_xids@,
    {
        self.rm_map.insert(x, a);
    }

    /// Consume a completion event: remove the finished actor from its
    /// table and release it.
    pub fn handle_event(&mut self, e: TxCoordEvent)
        requires
            old(self).wf(),
        ensures
            final(self).wf(),
            hub_config_unchanged(*old(self), *final(self)),
            match e {
                TxCoordEvent::TMEnd(x) => {
                    &&& final(self).tm_map@ == old(self).tm_map@.remove(x)
                    &&& rm_table_unchanged(*old(self), *final(self))
                },
                TxCoordEvent::RMEnd(x) => {
                    &&& final(self).rm_map@ == old(self).rm_map@.remove(x)
                    &&& tm_table_unchanged(*old(self), *final(self))
                },
            },
    {
        match e {
            TxCoordEvent::TMEnd(x) => {
                let _ = self.tm_map.remove(&x);
                remove_xid(&mut self.tm_xids, x);
            },
            TxCoordEvent::RMEnd(x) => {
                let _ = self.rm_map.remove(&x);
                remove_xid(&mut self.rm_xids, x);
            },
        }
    }
}

impl TxCoordCommit {
    /// Route one protocol message to the coordinator for `xid`,
    /// creating the actor on first reference.
    fn deliver_tm_msg(&mut self, xid: u64, msg: MsgToTM, source: u64) -> (r: RouteOutput)
        requires
            old(self).wf(),
        ensures
            final(self).wf(),
            hub_config_unchanged(*old(self), *final(self)),
            rm_table_unchanged(*old(self), *final(self)),
            ({
                let s = tm_step(tm_pre_model(*old(self), xid), tm_act_of(msg, source));
                &&& tm_table_steps(*old(self), *final(self), xid, s.post)
                &&& r.outbound@ == tm_envelopes(
                    old(self).node_id,
                    xid,
                    final(self).tm_map@[xid].channel,
                    s.out,
                )
                &&& r.events@ == (if s.finished {
                    seq![TxCoordEvent::TMEnd(xid)]
                } else {
                    Seq::<TxCoordEvent>::empty()
                })
                &&& r.check_ok
            }),
    {
        let mut t = self.take_or_create_tm(xid);
        let eff = t.recv_msg(msg, source);
        proof {
            lemma_tm_step_inv(tm_pre_model(*old(self), xid), tm_act_of(msg, source));
        }
        let out = build_tm_envelopes(self.node_id, xid, t.channel, &eff.outbound);
        let mut events: Vec<TxCoordEvent> = Vec::new();
        if eff.finished {
            events.push(TxCoordEvent::TMEnd(xid));
        }
        self.put_tm(xid, t);
        proof {
            assert(events@ =~= (if eff.finished {
                seq![TxCoordEvent::TMEnd(xid)]
            } else {
                Seq::<TxCoordEvent>::empty()
            }));
        }
        RouteOutput { outbound: out, events, check_ok: true }
    }

    /// Route the begin input to the coordinator for `xid`, creating the
    /// actor on first reference.
    fn deliver_tm_begin(&mut self, xid: u64, participants: Vec<u64>) -> (r: RouteOutput)
        requires
            old(self).wf(),
        ensures
            final(self).wf(),
            hub_config_unchanged(*old(self), *final(self)),
            rm_table_unchanged(*old(self), *final(self)),
            ({
                let s = tm_step(
                    tm_pre_model(*old(self), xid),
                    TmAct::Begin { participants: participants@ },
                );
                &&& tm_table_steps(*old(self), *final(self), xid, s.post)
                &&& r.outbound@ == tm_envelopes(
                    old(self).node_id,
                    xid,
                    final(self).tm_map@[xid].channel,
                    s.out,
                )
                &&& r.events@ == Seq::<TxCoordEvent>::empty()
                &&& r.check_ok
            }),
    {
        let mut t = self.take_or_create_tm(xid);
        let eff = t.begin(participants);
        proof {
            lemma_tm_step_inv(
                tm_pre_model(*old(self), xid),
                TmAct::Begin { participants: participants@ },
            );
        }
        let out = build_tm_envelopes(self.node_id, xid, t.channel, &eff.outbound);
        self.put_tm(xid, t);
        RouteOutput { outbound: out, events: Vec::new(), check_ok: true }
    }

    /// Route the vote-timeout input to the coordinator for `xid`,
    /// creating the actor on first reference.
    fn deliver_tm_timeout(&mut self, xid: u64) -> (r: RouteOutput)
        requires
            old(self).wf(),
        ensures
            final(self).wf(),
            hub_config_unchanged(*old(self), *final(self)),
            rm_table_unchanged(*old(self), *final(self)),
            ({
                let s = tm_step(tm_pre_model(*old(self), xid), TmAct::Timeout);
                &&& tm_table_steps(*old(self), *final(self), xid, s.post)
                &&& r.outbound@ == tm_envelopes(
                    old(self).node_id,
                    xid,
                    final(self).tm_map@[xid].channel,
                    s.out,
                )
                &&& r.events@ == Seq::<TxCoordEvent>::empty()
                &&& r.check_ok
            }),
    {
        let mut t = self.take_or_create_tm(xid);
        let eff = t.timeout();
        proof {
            lemma_tm_step_inv(tm_pre_model(*old(self), xid), TmAct::Timeout);
        }
        let out = build_tm_envelopes(self.node_id, xid, t.channel, &eff.outbound);
        self.put_tm(xid, t);
        RouteOutput { outbound: out, events: Vec::new(), check_ok: true }
    }

    /// Route one protocol message to the participant for `xid`,
    /// creating the actor on first reference.
    fn deliver_rm_msg(&mut self, xid: u64, msg: MsgToRM, source: u64) -> (r: RouteOutput)
        requires
            old(self).wf(),
        ensures
            final(self).wf(),
            hub_config_unchanged(*old(self), *final(self)),
            tm_table_unchanged(*old(self), *final(self)),
            ({
                let s = rm_step(rm_pre_model(*old(self), xid), rm_act_of(msg, source));
                &&& rm_table_steps(*old(self), *final(self), xid, s.post)
                &&& r.outbound@ == rm_envelopes(
                    old(self).node_id,
                    xid,
                    final(self).rm_map@[xid].channel,
                    s.out,
                )
                &&& r.events@ == (if s.finished {
                    seq![TxCoordEvent::RMEnd(xid)]
                } else {
                    Seq::<TxCoordEvent>::empty()
                })
                &&& r.check_ok
            }),
    {
        let mut a = self.take_or_create_rm(xid);
        let eff = a.recv_msg(msg, source);
        let out = build_rm_envelopes(self.node_id, xid, a.channel, &eff.outbound);
        let mut events: Vec<TxCoordEvent> = Vec::new();
        if eff.finished {
            events.push(TxCoordEvent::RMEnd(xid));
        }
        self.put_rm(xid, a);
        proof {
            assert(events@ =~= (if eff.finished {
                seq![TxCoordEvent::RMEnd(xid)]
            } else {
                Seq::<TxCoordEvent>::empty()
            }));
        }
        RouteOutput { outbound: out, events, check_ok: true }
    }
}

/// The participant actor for `y` was restarted: its model stepped with
/// the restart input, its identity untouched.
pub open spec fn rm_entry_restarted(pre: TxCoordCommit, post: TxCoordCommit, y: u64) -> bool {
    let a = pre.rm_map@[y];
    let b = post.rm_map@[y];
    &&& b@ == rm_step(a@, RmAct::Restart).post
    &&& b.xid == a.xid
    &&& b.node_id == a.node_id
    &&& b.channel == a.channel
    &&& b.ready == a.ready
}

/// The coordinator actor for `y` was restarted.
pub open spec fn tm_entry_restarted(pre: TxCoordCommit, post: TxCoordCommit, y: u64) -> bool {
    let a = pre.tm_map@[y];
    let b = post.tm_map@[y];
    &&& b@ == tm_step(a@, TmAct::Restart).post
    &&& b.xid == a.xid
    &&& b.node_id == a.node_id
    &&& b.channel == a.channel
}

/// Every live participant was restarted and none appeared or vanished.
pub open spec fn restarted_rms(pre: TxCoordCommit, post: TxCoordCommit) -> bool {
    &&& post.rm_xids@ == pre.rm_xids@
    &&& forall|y: u64|
        #![trigger post.rm_map@.contains_key(y)]
        #![trigger pre.rm_map@.contains_key(y)]
        post.rm_map@.contains_key(y) == pre.rm_map@.contains_key(y)
    &&& forall|y: u64| #[trigger] pre.rm_map@.contains_key(y) ==> rm_entry_restarted(pre, post, y)
}

/// Every live coordinator was restarted and none appeared or vanished.
pub open spec fn restarted_tms(pre: TxCoordCommit, post: TxCoordCommit) -> bool {
    &&& post.tm_xids@ == pre.tm_xids@
    &&& forall|y: u64|
        #![trigger post.tm_map@.contains_key(y)]
        #![trigger pre.tm_map@.contains_key(y)]
        post.tm_map@.contains_key(y) == pre.tm_map@.contains_key(y)
    &&& forall|y: u64| #[trigger] pre.tm_map@.contains_key(y) ==> tm_entry_restarted(pre, post, y)
}

/// The envelopes the participants with keys `xs` re-send on restart, in
/// key-list order.
pub open spec fn restart_rm_envs(pre: TxCoordCommit, xs: Seq<u64>) -> Seq<Outbound>
    decreases xs.len(),
{
    if xs.len() == 0 {
        Seq::empty()
    } else {
        let x = xs.last();
        let head = if pre.rm_map@.contains_key(x) {
            rm_envelopes(
                pre.node_id,
                x,
                pre.rm_map@[x].channel,
                rm_step(pre.rm_map@[x]@, RmAct::Restart).out,
            )
        } else {
            Seq::<Outbound>::empty()
        };
        restart_rm_envs(pre, xs.drop_last()) + head
    }
}

/// The envelopes the coordinators with keys `xs` re-send on restart, in
/// key-list order.
pub open spec fn restart_tm_envs(pre: TxCoordCommit, xs: Seq<u64>) -> Seq<Outbound>
    decreases xs.len(),
{
    if xs.len() == 0 {
        Seq::empty()
    } else {
        let x = xs.last();
        let head = if pre.tm_map@.contains_key(x) {
            tm_envelopes(
                pre.node_id,
                x,
                pre.tm_map@[x].channel,
                tm_step(pre.tm_map@[x]@, TmAct::Restart).out,
            )
        } else {
            Seq::<Outbound>::empty()
        };
        restart_tm_envs(pre, xs.drop_last()) + head
    }
}

impl TxCoordCommit {
    /// The `Restart` testing command: crash-and-recover every live
    /// actor, participants first, collecting everything they re-send.
    #[verifier::loop_isolation(false)]
    fn restart_all(&mut self) -> (r: RouteOutput)
        requires
            old(self).wf(),
        ensures
            final(self).wf(),
            hub_config_unchanged(*old(self), *final(self)),
            restarted_rms(*old(self), *final(self)),
            restarted_tms(*old(self), *final(self)),
            r.outbound@ == restart_rm_envs(*old(self), old(self).rm_xids@) + restart_tm_envs(
                *old(self),
                old(self).tm_xids@,
            ),
            r.events@ == Seq::<TxCoordEvent>::empty(),
            r.check_ok,
    {
        let mut out: Vec<Outbound> = Vec::new();
        let mut i: usize = 0;
        while i < self.rm_xids.len()
            invariant
                i <= self.rm_xids@.len(),
                self.rm_xids@ == old(self).rm_xids@,
                tm_table_unchanged(*old(self), *self),
                hub_config_unchanged(*old(self), *self),
                forall|y: u64|
                    #![trigger self.rm_map@.contains_key(y)]
                    #![trigger old(self).rm_map@.contains_key(y)]
                    self.rm_map@.contains_key(y) == old(self).rm_map@.contains_key(y),
                forall|j: int|
                    0 <= j < i ==> rm_entry_restarted(
                        *old(self),
                        *self,
                        old(self).rm_xids@[j],
                    ),
                forall|j: int|
                    i <= j < old(self).rm_xids@.len() ==> self.rm_map@[old(self).rm_xids@[j]]
                        == old(self).rm_map@[old(self).rm_xids@[j]],
                out@ == restart_rm_envs(*old(self), old(self).rm_xids@.take(i as int)),
            decreases self.rm_xids@.len() - i,
        {
            let ghost pre = *old(self);
            let ghost xs = pre.rm_xids@;
            let x = self.rm_xids[i];
            proof {
                assert(xs.contains(xs[i as int]));
            }
            let opt = self.rm_map.remove(&x);
            let mut a = match opt {
                Some(a) => a,
                None => vstd::pervasive::unreached(),
            };
            let eff = a.restart();
            let mut env = build_rm_envelopes(self.node_id, x, a.channel, &eff.outbound);
            out.append(&mut env);
            self.rm_map.insert(x, a);
            proof {
                assert(xs.take(i as int + 1).drop_last() =~= xs.take(i as int));
                assert(xs.take(i as int + 1).last() == xs[i as int]);
                assert forall|j: int| 0 <= j < i + 1 implies rm_entry_restarted(
                    pre,
                    *self,
                    xs[j],
                ) by {
                    if j < i {
                        assert(xs[j] != xs[i as int]);
                    }
                }
            }
            i = i + 1;
        }
        proof {
            assert(old(self).rm_xids@.take(old(self).rm_xids@.len() as int) =~= old(
                self,
            ).rm_xids@);
            assert forall|y: u64| #[trigger]
                old(self).rm_map@.contains_key(y) implies rm_entry_restarted(
                *old(self),
                *self,
                y,
            ) by {
                let xs = old(self).rm_xids@;
                assert(xs.contains(y));
                let j = choose|j: int| 0 <= j < xs.len() && xs[j] == y;
            }
        }
        let ghost mid = *self;
        let mut i: usize = 0;
        while i < self.tm_xids.len()
            invariant
                i <= self.tm_xids@.len(),
                self.tm_xids@ == old(self).tm_xids@,
                rm_table_unchanged(mid, *self),
                hub_config_unchanged(*old(self), *self),
                forall|y: u64|
                    #![trigger self.tm_map@.contains_key(y)]
                    #![trigger old(self).tm_map@.contains_key(y)]
                    self.tm_map@.contains_key(y) == old(self).tm_map@.contains_key(y),
                forall|j: int|
                    0 <= j < i ==> tm_entry_restarted(
                        *old(self),
                        *self,
                        old(self).tm_xids@[j],
                    ),
                forall|j: int|
                    i <= j < old(self).tm_xids@.len() ==> self.tm_map@[old(self).tm_xids@[j]]
                        == old(self).tm_map@[old(self).tm_xids@[j]],
                out@ == restart_rm_envs(*old(self), old(self).rm_xids@) + restart_tm_envs(
                    *old(self),
                    old(self).tm_xids@.take(i as int),
                ),
            decreases self.tm_xids@.len() - i,
        {
            let ghost pre = *old(self);
            let ghost xs = pre.tm_xids@;
            let x = self.tm_xids[i];
            proof {
                assert(xs.contains(xs[i as int]));
            }
            let opt = self.tm_map.remove(&x);
            let mut t = match opt {
                Some(t) => t,
                None => vstd::pervasive::unreached(),
            };
            let eff = t.restart();
            let mut env = build_tm_envelopes(self.node_id, x, t.channel, &eff.outbound);
            out.append(&mut env);
            self.tm_map.insert(x, t);
            proof {
                assert(xs.take(i as int + 1).drop_last() =~= xs.take(i as int));
                assert(xs.take(i as int + 1).last() == xs[i as int]);
                assert forall|j: int| 0 <= j < i + 1 implies tm_entry_restarted(
                    pre,
                    *self,
                    xs[j],
                ) by {
                    if j < i {
                        assert(xs[j] != xs[i as int]);
                    }
                }
            }
            i = i + 1;
        }
        proof {
            assert(old(self).tm_xids@.take(old(self).tm_xids@.len() as int) =~= old(
                self,
            ).tm_xids@);
            assert forall|y: u64| #[trigger]
                old(self).tm_map@.contains_key(y) implies tm_entry_restarted(
                *old(self),
                *self,
                y,
            ) by {
                let xs = old(self).tm_xids@;
                assert(xs.contains(y));
                let j = choose|j: int| 0 <= j < xs.len() && xs[j] == y;
            }
            assert forall|y: u64| #[trigger] self.tm_map@.contains_key(y) implies {
                let t = self.tm_map@[y];
                &&& t.xid == y
                &&& t.node_id == self.node_id
                &&& t.channel < self.n_channels
                &&& tm_inv(t@)
            } by {
                assert(old(self).tm_map@.contains_key(y));
                lemma_tm_step_inv(old(self).tm_map@[y]@, TmAct::Restart);
            }
        }
        RouteOutput { outbound: out, events: Vec::new(), check_ok: true }
    }
}

/// The models of all stored coordinators.
pub open spec fn models_of_tms(m: Map<u64, TxTM>) -> Map<u64, TmModel> {
    Map::new(|x: u64| m.contains_key(x), |x: u64| m[x]@)
}

/// The models of all stored participants.
pub open spec fn models_of_rms(m: Map<u64, TxRM>) -> Map<u64, RmModel> {
    Map::new(|x: u64| m.contains_key(x), |x: u64| m[x]@)
}

/// The stored coordinator model for `x`, or a fresh one.
pub open spec fn tm_model_at(ms: Map<u64, TmModel>, x: u64) -> TmModel {
    if ms.contains_key(x) {
        ms[x]
    } else {
        fresh_tm()
    }
}

/// The stored participant model for `x`, or a fresh one with readiness
/// `ready`.
pub open spec fn rm_model_at(ms: Map<u64, RmModel>, x: u64, ready: bool) -> RmModel {
    if ms.contains_key(x) {
        ms[x]
    } else {
        fresh_rm(ready)
    }
}

/// The coordinator models after a `Setup` command installed the listed
/// states in order, creating missing actors first.
pub open spec fn setup_tms(ms: Map<u64, TmModel>, ps: Seq<(u64, TMState)>) -> Map<u64, TmModel>
    decreases ps.len(),
{
    if ps.len() == 0 {
        ms
    } else {
        let prev = setup_tms(ms, ps.drop_last());
        let x = ps.last().0;
        prev.insert(x, tm_setup(tm_model_at(prev, x), ps.last().1))
    }
}

/// The participant models after a `Setup` command installed the listed
/// states in order; readiness and remembered coordinator are untouched.
pub open spec fn setup_rms(ms: Map<u64, RmModel>, ready: bool, ps: Seq<(u64, RMState)>) -> Map<
    u64,
    RmModel,
>
    decreases ps.len(),
{
    if ps.len() == 0 {
        ms
    } else {
        let prev = setup_rms(ms, ready, ps.drop_last());
        let x = ps.last().0;
        let m = rm_model_at(prev, x, ready);
        prev.insert(x, RmModel { state: ps.last().1, ready: m.ready, coord: m.coord })
    }
}

/// Live actors kept their identity (node, transaction, channel).
pub open spec fn actor_identities_preserved(pre: TxCoordCommit, post: TxCoordCommit) -> bool {
    &&& forall|y: u64| #[trigger] pre.tm_map@.contains_key(y) ==> {
        &&& post.tm_map@.contains_key(y)
        &&& post.tm_map@[y].xid == pre.tm_map@[y].xid
        &&& post.tm_map@[y].node_id == pre.tm_map@[y].node_id
        &&& post.tm_map@[y].channel == pre.tm_map@[y].channel
    }
    &&& forall|y: u64| #[trigger] pre.rm_map@.contains_key(y) ==> {
        &&& post.rm_map@.contains_key(y)
        &&& post.rm_map@[y].xid == pre.rm_map@[y].xid
        &&& post.rm_map@[y].node_id == pre.rm_map@[y].node_id
        &&& post.rm_map@[y].channel == pre.rm_map@[y].channel
        &&& post.rm_map@[y].ready == pre.rm_map@[y].ready
    }
}

/// Some entry of the list names `y`.
pub open spec fn names_tm(ps: Seq<(u64, TMState)>, y: u64) -> bool {
    exists|i: int| 0 <= i < ps.len() && (#[trigger] ps[i]).0 == y
}

/// Some entry of the list names `y`.
pub open spec fn names_rm(ps: Seq<(u64, RMState)>, y: u64) -> bool {
    exists|i: int| 0 <= i < ps.len() && (#[trigger] ps[i]).0 == y
}

/// The coordinator table grew by exactly the named-but-absent keys,
/// created fresh; every other entry is untouched.
pub open spec fn tm_table_extended(
    pre: TxCoordCommit,
    post: TxCoordCommit,
    ps: Seq<(u64, TMState)>,
) -> bool {
    &&& forall|y: u64|
        #![trigger post.tm_map@.contains_key(y)]
        #![trigger pre.tm_map@.contains_key(y)]
        post.tm_map@.contains_key(y) <==> (pre.tm_map@.contains_key(y) || names_tm(ps, y))
    &&& forall|y: u64| #[trigger] pre.tm_map@.contains_key(y) ==> post.tm_map@[y]
        == pre.tm_map@[y]
    &&& forall|y: u64|
        !pre.tm_map@.contains_key(y) && #[trigger] post.tm_map@.contains_key(y)
            ==> post.tm_map@[y]@ == fresh_tm()
}

/// The participant table grew by exactly the named-but-absent keys.
pub open spec fn rm_table_extended(
    pre: TxCoordCommit,
    post: TxCoordCommit,
    ps: Seq<(u64, RMState)>,
) -> bool {
    &&& forall|y: u64|
        #![trigger post.rm_map@.contains_key(y)]
        #![trigger pre.rm_map@.contains_key(y)]
        post.rm_map@.contains_key(y) <==> (pre.rm_map@.contains_key(y) || names_rm(ps, y))
    &&& forall|y: u64| #[trigger] pre.rm_map@.contains_key(y) ==> post.rm_map@[y]
        == pre.rm_map@[y]
    &&& forall|y: u64|
        !pre.rm_map@.contains_key(y) && #[trigger] post.rm_map@.contains_key(y)
            ==> post.rm_map@[y]@ == fresh_rm(pre.rm_ready)
}

/// The state a `Check` command observes for the coordinator of `x`: the
/// live actor's state, or `TMInvalid` for the actor it creates first.
pub open spec fn tm_seen_state(pre: TxCoordCommit, x: u64) -> TMState {
    if pre.tm_map@.contains_key(x) {
        pre.tm_map@[x].state
    } else {
        TMState::TMInvalid
    }
}

/// The state a `Check` command observes for the participant of `x`.
pub open spec fn rm_seen_state(pre: TxCoordCommit, x: u64) -> RMState {
    if pre.rm_map@.contains_key(x) {
        pre.rm_map@[x].state
    } else {
        RMState::RMInvalid
    }
}

/// Every coordinator comparison the `Check` command asks for succeeds.
pub open spec fn tm_checks_pass(pre: TxCoordCommit, ps: Seq<(u64, TMState)>) -> bool {
    forall|i: int| 0 <= i < ps.len() ==> tm_seen_state(pre, (#[trigger] ps[i]).0) == ps[i].1
}

/// Every participant comparison the `Check` command asks for succeeds.
pub open spec fn rm_checks_pass(pre: TxCoordCommit, ps: Seq<(u64, RMState)>) -> bool {
    forall|i: int| 0 <= i < ps.len() ==> rm_seen_state(pre, (#[trigger] ps[i]).0) == ps[i].1
}

impl TxCoordCommit {
    /// The `Setup` testing command: forcibly install the listed actor
    /// states, participants first, creating missing actors on the way.
    #[verifier::loop_isolation(false)]
    fn setup_all(&mut self, s: &MTState) -> (r: RouteOutput)
        requires
            old(self).wf(),
        ensures
            final(self).wf(),
            hub_config_unchanged(*old(self), *final(self)),
            models_of_rms(final(self).rm_map@) == setup_rms(
                models_of_rms(old(self).rm_map@),
                old(self).rm_ready,
                s.rm_state@,
            ),
            models_of_tms(final(self).tm_map@) == setup_tms(
                models_of_tms(old(self).tm_map@),
                s.tm_state@,
            ),
            actor_identities_preserved(*old(self), *final(self)),
            r.outbound@ == Seq::<Outbound>::empty(),
            r.events@ == Seq::<TxCoordEvent>::empty(),
            r.check_ok,
    {
        let ghost rm_base = models_of_rms(old(self).rm_map@);
        let ghost tm_base = models_of_tms(old(self).tm_map@);
        let mut i: usize = 0;
        while i < s.rm_state.len()
            invariant
                i <= s.rm_state@.len(),
                self.wf(),
                hub_config_unchanged(*old(self), *self),
                tm_table_unchanged(*old(self), *self),
                actor_identities_preserved(*old(self), *self),
                models_of_rms(self.rm_map@) == setup_rms(
                    rm_base,
                    old(self).rm_ready,
                    s.rm_state@.take(i as int),
                ),
            decreases s.rm_state@.len() - i,
        {
            let (x, st) = s.rm_state[i];
            let ghost before = *self;
            let mut a = self.take_or_create_rm(x);
            a.setup_rm(st);
            self.put_rm(x, a);
            proof {
                let ps = s.rm_state@;
                assert(ps.take(i as int + 1).drop_last() =~= ps.take(i as int));
                assert(ps.take(i as int + 1).last() == ps[i as int]);
                assert(models_of_rms(self.rm_map@) =~= setup_rms(
                    rm_base,
                    old(self).rm_ready,
                    ps.take(i as int + 1),
                ));
            }
            i = i + 1;
        }
        proof {
            assert(s.rm_state@.take(s.rm_state@.len() as int) =~= s.rm_state@);
        }
        let mut i: usize = 0;
        while i < s.tm_state.len()
            invariant
                i <= s.tm_state@.len(),
                self.wf(),
                hub_config_unchanged(*old(self), *self),
                actor_identities_preserved(*old(self), *self),
                models_of_rms(self.rm_map@) == setup_rms(
                    rm_base,
                    old(self).rm_ready,
                    s.rm_state@,
                ),
                self.rm_xids@.no_duplicates(),
                models_of_tms(self.tm_map@) == setup_tms(tm_base, s.tm_state@.take(i as int)),
            decreases s.tm_state@.len() - i,
        {
            let (x, st) = s.tm_state[i];
            let mut t = self.take_or_create_tm(x);
            proof {
                crate::tm::lemma_tm_setup_inv(t@, st);
            }
            t.setup_tm(st);
            self.put_tm(x, t);
            proof {
                let ps = s.tm_state@;
                assert(ps.take(i as int + 1).drop_last() =~= ps.take(i as int));
                assert(ps.take(i as int + 1).last() == ps[i as int]);
                assert(models_of_tms(self.tm_map@) =~= setup_tms(
                    tm_base,
                    ps.take(i as int + 1),
                ));
            }
            i = i + 1;
        }
        proof {
            assert(s.tm_state@.take(s.tm_state@.len() as int) =~= s.tm_state@);
        }
        RouteOutput { outbound: Vec::new(), events: Vec::new(), check_ok: true }
    }

    /// The `Check` testing command: compare each listed actor's state
    /// with the expected one, participants first, creating missing
    /// actors (which then show their initial state).  Never mutates a
    /// live actor; a mismatch is reported to the test driver, not a
    /// node fault.
    #[verifier::loop_isolation(false)]
    fn check_all(&mut self, s: &MTState) -> (r: RouteOutput)
        requires
            old(self).wf(),
        ensures
            final(self).wf(),
            hub_config_unchanged(*old(self), *final(self)),
            rm_table_extended(*old(self), *final(self), s.rm_state@),
            tm_table_extended(*old(self), *final(self), s.tm_state@),
            r.outbound@ == Seq::<Outbound>::empty(),
            r.events@ == Seq::<TxCoordEvent>::empty(),
            r.check_ok == (rm_checks_pass(*old(self), s.rm_state@) && tm_checks_pass(
                *old(self),
                s.tm_state@,
            )),
    {
        let mut ok = true;
        let mut i: usize = 0;
        while i < s.rm_state.len()
            invariant
                i <= s.rm_state@.len(),
                self.wf(),
                hub_config_unchanged(*old(self), *self),
                tm_table_unchanged(*old(self), *self),
                rm_table_extended(*old(self), *self, s.rm_state@.take(i as int)),
                ok == rm_checks_pass(*old(self), s.rm_state@.take(i as int)),
            decreases s.rm_state@.len() - i,
        {
            let (x, expected) = s.rm_state[i];
            let a = self.take_or_create_rm(x);
            let good = a.check_rm(expected);
            ok = ok && good;
            self.put_rm(x, a);
            proof {
                let ps = s.rm_state@;
                assert(ps.take(i as int + 1).drop_last() =~= ps.take(i as int));
                assert(ps.take(i as int + 1).last() == ps[i as int]);
                assert(a@.state == rm_seen_state(*old(self), x));
                assert forall|y: u64|
                    self.rm_map@.contains_key(y) <==> (old(self).rm_map@.contains_key(y)
                        || names_rm(ps.take(i as int + 1), y)) by {
                    if names_rm(ps.take(i as int), y) || y == x {
                        let k = if y == x {
                            i as int
                        } else {
                            choose|k: int|
                                0 <= k < ps.take(i as int).len() && (#[trigger] ps.take(
                                    i as int,
                                )[k]).0 == y
                        };
                        assert(ps.take(i as int + 1)[k].0 == y);
                    }
                    if names_rm(ps.take(i as int + 1), y) {
                        let k = choose|k: int|
                            0 <= k < ps.take(i as int + 1).len() && (#[trigger] ps.take(
                                i as int + 1,
                            )[k]).0 == y;
                        if k < i {
                            assert(ps.take(i as int)[k].0 == y);
                        }
                    }
                }
                let pre = *old(self);
                if rm_checks_pass(pre, ps.take(i as int + 1)) {
                    assert forall|j: int| 0 <= j < i implies rm_seen_state(
                        pre,
                        (#[trigger] ps.take(i as int)[j]).0,
                    ) == ps.take(i as int)[j].1 by {
                        assert(rm_seen_state(pre, ps.take(i as int + 1)[j].0) == ps.take(
                            i as int + 1,
                        )[j].1);
                    }
                    assert(rm_seen_state(pre, ps.take(i as int + 1)[i as int].0) == ps.take(
                        i as int + 1,
                    )[i as int].1);
                }
                if rm_checks_pass(pre, ps.take(i as int)) && rm_seen_state(pre, x)
                    == expected {
                    assert forall|j: int| 0 <= j < i + 1 implies rm_seen_state(
                        pre,
                        (#[trigger] ps.take(i as int + 1)[j]).0,
                    ) == ps.take(i as int + 1)[j].1 by {
                        if j < i {
                            assert(rm_seen_state(pre, ps.take(i as int)[j].0) == ps.take(
                                i as int,
                            )[j].1);
                        }
                    }
                }
            }
            i = i + 1;
        }
        proof {
            assert(s.rm_state@.take(s.rm_state@.len() as int) =~= s.rm_state@);
        }
        let ghost mid = *self;
        let mut i: usize = 0;
        while i < s.tm_state.len()
            invariant
                i <= s.tm_state@.len(),
                self.wf(),
                hub_config_unchanged(*old(self), *self),
                rm_table_unchanged(mid, *self),
                rm_table_extended(*old(self), *self, s.rm_state@),
                tm_table_extended(*old(self), *self, s.tm_state@.take(i as int)),
                ok == (rm_checks_pass(*old(self), s.rm_state@) && tm_checks_pass(
                    *old(self),
                    s.tm_state@.take(i as int),
                )),
            decreases s.tm_state@.len() - i,
        {
            let (x, expected) = s.tm_state[i];
            let t = self.take_or_create_tm(x);
            let good = t.check_tm(expected);
            ok = ok && good;
            self.put_tm(x, t);
            proof {
                let ps = s.tm_state@;
                assert(ps.take(i as int + 1).drop_last() =~= ps.take(i as int));
                assert(ps.take(i as int + 1).last() == ps[i as int]);
                assert(t@.state == tm_seen_state(*old(self), x));
                assert forall|y: u64|
                    self.tm_map@.contains_key(y) <==> (old(self).tm_map@.contains_key(y)
                        || names_tm(ps.take(i as int + 1), y)) by {
                    if names_tm(ps.take(i as int), y) || y == x {
                        let k = if y == x {
                            i as int
                        } else {
                            choose|k: int|
                                0 <= k < ps.take(i as int).len() && (#[trigger] ps.take(
                                    i as int,
                                )[k]).0 == y
                        };
                        assert(ps.take(i as int + 1)[k].0 == y);
                    }
                    if names_tm(ps.take(i as int + 1), y) {
                        let k = choose|k: int|
                            0 <= k < ps.take(i as int + 1).len() && (#[trigger] ps.take(
                                i as int + 1,
                            )[k]).0 == y;
                        if k < i {
                            assert(ps.take(i as int)[k].0 == y);
                        }
                    }
                }
                let pre = *old(self);
                if tm_checks_pass(pre, ps.take(i as int + 1)) {
                    assert forall|j: int| 0 <= j < i implies tm_seen_state(
                        pre,
                        (#[trigger] ps.take(i as int)[j]).0,
                    ) == ps.take(i as int)[j].1 by {
                        assert(tm_seen_state(pre, ps.take(i as int + 1)[j].0) == ps.take(
                            i as int + 1,
                        )[j].1);
                    }
                    assert(tm_seen_state(pre, ps.take(i as int + 1)[i as int].0) == ps.take(
                        i as int + 1,
                    )[i as int].1);
                }
                if tm_checks_pass(pre, ps.take(i as int)) && tm_seen_state(pre, x)
                    == expected {
                    assert forall|j: int| 0 <= j < i + 1 implies tm_seen_state(
                        pre,
                        (#[trigger] ps.take(i as int + 1)[j]).0,
                    ) == ps.take(i as int + 1)[j].1 by {
                        if j < i {
                            assert(tm_seen_state(pre, ps.take(i as int)[j].0) == ps.take(
                                i as int,
                            )[j].1);
                        }
                    }
                }
            }
            i = i + 1;
        }
        proof {
            assert(s.tm_state@.take(s.tm_state@.len() as int) =~= s.tm_state@);
        }
        RouteOutput { outbound: Vec::new(), events: Vec::new(), check_ok: ok }
    }
}

/// Wrap a coordinator's outbound messages into transport envelopes.
fn build_tm_envelopes(node: u64, xid: u64, ch: usize, outs: &Vec<TmOut>) -> (r: Vec<Outbound>)
    ensures
        r@ == tm_envelopes(node, xid, ch, outs@),
{
    let mut r: Vec<Outbound> = Vec::new();
    let mut i: usize = 0;
    while i < outs.len()
        invariant
            i <= outs@.len(),
            r@.len() == i,
            forall|j: int| 0 <= j < i ==> r@[j] == tm_envelopes(node, xid, ch, outs@)[j],
        decreases outs@.len() - i,
    {
        r.push(
            Outbound {
                channel: ch,
                envelope: Envelope {
                    source: node,
                    dest: outs[i].dest,
                    payload: TxMsg::ToRM { xid: xid, msg: outs[i].msg },
                },
            },
        );
        i = i + 1;
    }
    proof {
        assert(r@ =~= tm_envelopes(node, xid, ch, outs@));
    }
    r
}

/// Wrap a participant's outbound messages into transport envelopes.
fn build_rm_envelopes(node: u64, xid: u64, ch: usize, outs: &Vec<RmOut>) -> (r: Vec<Outbound>)
    ensures
        r@ == rm_envelopes(node, xid, ch, outs@),
{
    let mut r: Vec<Outbound> = Vec::new();
    let mut i: usize = 0;
    while i < outs.len()
        invariant
            i <= outs@.len(),
            r@.len() == i,
            forall|j: int| 0 <= j < i ==> r@[j] == rm_envelopes(node, xid, ch, outs@)[j],
        decreases outs@.len() - i,
    {
        r.push(
            Outbound {
                channel: ch,
                envelope: Envelope {
                    source: node,
                    dest: outs[i].dest,
                    payload: TxMsg::ToTM { xid: xid, msg: outs[i].msg },
                },
            },
        );
        i = i + 1;
    }
    proof {
        assert(r@ =~= rm_envelopes(node, xid, ch, outs@));
    }
    r
}

/// What routing one payload means, for every payload kind: which table
/// changed and how, which envelopes came out, which completion events
/// were produced, and what `check_ok` reports.
pub open spec fn hub_handles(
    pre: TxCoordCommit,
    post: TxCoordCommit,
    payload: TxMsg,
    source: u64,
    r: RouteOutput,
) -> bool {
    match payload {
        TxMsg::ToRM { xid, msg } => {
            let s = rm_step(rm_pre_model(pre, xid), rm_act_of(msg, source));
            &&& rm_table_steps(pre, post, xid, s.post)
            &&& tm_table_unchanged(pre, post)
            &&& r.outbound@ == rm_envelopes(pre.node_id, xid, post.rm_map@[xid].channel, s.out)
            &&& r.events@ == (if s.finished {
                seq![TxCoordEvent::RMEnd(xid)]
            } else {
                Seq::<TxCoordEvent>::empty()
            })
            &&& r.check_ok
        },
        TxMsg::ToTM { xid, msg } => {
            let s = tm_step(tm_pre_model(pre, xid), tm_act_of(msg, source));
            &&& tm_table_steps(pre, post, xid, s.post)
            &&& rm_table_unchanged(pre, post)
            &&& r.outbound@ == tm_envelopes(pre.node_id, xid, post.tm_map@[xid].channel, s.out)
            &&& r.events@ == (if s.finished {
                seq![TxCoordEvent::TMEnd(xid)]
            } else {
                Seq::<TxCoordEvent>::empty()
            })
            &&& r.check_ok
        },
        TxMsg::Testing(t) => match t {
            DTMTesting::Restart => {
                &&& restarted_rms(pre, post)
                &&& restarted_tms(pre, post)
                &&& r.outbound@ == restart_rm_envs(pre, pre.rm_xids@) + restart_tm_envs(
                    pre,
                    pre.tm_xids@,
                )
                &&& r.events@ == Seq::<TxCoordEvent>::empty()
                &&& r.check_ok
            },
            DTMTesting::Setup(st) => {
                &&& models_of_rms(post.rm_map@) == setup_rms(
                    models_of_rms(pre.rm_map@),
                    pre.rm_ready,
                    st.rm_state@,
                )
                &&& models_of_tms(post.tm_map@) == setup_tms(
                    models_of_tms(pre.tm_map@),
                    st.tm_state@,
                )
                &&& actor_identities_preserved(pre, post)
                &&& r.outbound@ == Seq::<Outbound>::empty()
                &&& r.events@ == Seq::<TxCoordEvent>::empty()
                &&& r.check_ok
            },
            DTMTesting::Check(st) => {
                &&& rm_table_extended(pre, post, st.rm_state@)
                &&& tm_table_extended(pre, post, st.tm_state@)
                &&& r.outbound@ == Seq::<Outbound>::empty()
                &&& r.events@ == Seq::<TxCoordEvent>::empty()
                &&& r.check_ok == (rm_checks_pass(pre, st.rm_state@) && tm_checks_pass(
                    pre,
                    st.tm_state@,
                ))
            },
            DTMTesting::TMBegin { xid, participants } => {
                let s = tm_step(
                    tm_pre_model(pre, xid),
                    TmAct::Begin { participants: participants@ },
                );
                &&& tm_table_steps(pre, post, xid, s.post)
                &&& rm_table_unchanged(pre, post)
                &&& r.outbound@ == tm_envelopes(
                    pre.node_id,
                    xid,
                    post.tm_map@[xid].channel,
                    s.out,
                )
                &&& r.events@ == Seq::<TxCoordEvent>::empty()
                &&& r.check_ok
            },
            DTMTesting::TMTimeout { xid } => {
                let s = tm_step(tm_pre_model(pre, xid), TmAct::Timeout);
                &&& tm_table_steps(pre, post, xid, s.post)
                &&& rm_table_unchanged(pre, post)
                &&& r.outbound@ == tm_envelopes(
                    pre.node_id,
                    xid,
                    post.tm_map@[xid].channel,
                    s.out,
                )
                &&& r.events@ == Seq::<TxCoordEvent>::empty()
                &&& r.check_ok
            },
        },
    }
}

impl TxCoordCommit {
    /// The hub's single dispatch point: consume one inbound payload.
    /// Protocol messages are routed by transaction id to the actor of
    /// the addressed role, created on first reference; testing commands
    /// are fanned out as [`hub_handles`] states.  Routing never fails:
    /// stray or duplicate protocol messages are discarded by the actor's
    /// own transition function.
    pub fn recv_msg(&mut self, payload: TxMsg, source: u64, _dest: u64) -> (r: RouteOutput)
        requires
            old(self).wf(),
        ensures
            final(self).wf(),
            hub_config_unchanged(*old(self), *final(self)),
            hub_handles(*old(self), *final(self), payload, source, r),
    {
        match payload {
            TxMsg::ToRM { xid, msg } => self.deliver_rm_msg(xid, msg, source),
            TxMsg::ToTM { xid, msg } => self.deliver_tm_msg(xid, msg, source),
            TxMsg::Testing(t) => match t {
                DTMTesting::Restart => self.restart_all(),
                DTMTesting::Setup(st) => self.setup_all(&st),
                DTMTesting::Check(st) => self.check_all(&st),
                DTMTesting::TMBegin { xid, participants } => self.deliver_tm_begin(
                    xid,
                    participants,
                ),
                DTMTesting::TMTimeout { xid } => self.deliver_tm_timeout(xid),
            },
        }
    }

    /// Route one transport envelope: [`recv_msg`](Self::recv_msg) on its
    /// payload, source and destination.
    pub fn route(&mut self, envelope: Envelope) -> (r: RouteOutput)
        requires
            old(self).wf(),
        ensures
            final(self).wf(),
            hub_config_unchanged(*old(self), *final(self)),
            hub_handles(*old(self), *final(self), envelope.payload, envelope.source, r),
    {
        let Envelope { source, dest, payload } = envelope;
        self.recv_msg(payload, source, dest)
    }
}

/// Chooses the outbound transport channel for a newly created actor,
/// uniformly at random among the node's channels (a fan-out policy, not
/// a correctness decision).
///
/// Relies on `rand::Rng::gen_range` through `rand::thread_rng`: for a
/// non-empty range `0..n` it returns a member of that range, hence a
/// value below `n`; on an empty range it would panic, which the
/// precondition rules out.  Nothing more is assumed of a random draw.
#[verifier::external_body]
fn pick_channel(n: usize) -> (r: usize)
    requires
        n >= 1,
    ensures
        r < n,
{
    rand::Rng::gen_range(&mut rand::thread_rng(), 0..n)
}

/// Pushing an element that does not occur yet keeps a key list free of
/// duplicates.
proof fn lemma_push_new_no_duplicates(s: Seq<u64>, x: u64)
    requires
        s.no_duplicates(),
        !s.contains(x),
    ensures
        s.push(x).no_duplicates(),
        forall|y: u64| #[trigger] s.push(x).contains(y) <==> (s.contains(y) || y == x),
{
    let t = s.push(x);
    assert forall|i: int, j: int| 0 <= i < t.len() && 0 <= j < t.len() && i != j implies t[i]
        != t[j] by {
        if i < s.len() && j < s.len() {
        } else if i < s.len() {
            assert(s.contains(s[i])) by {
                assert(s[i] == s[i]);
            }
        } else {
            assert(s.contains(s[j]));
        }
    }
    assert forall|y: u64| #[trigger] t.contains(y) <==> (s.contains(y) || y == x) by {
        if t.contains(y) {
            let i = choose|i: int| 0 <= i < t.len() && t[i] == y;
            if i < s.len() {
                assert(s.contains(y));
            }
        }
        if s.contains(y) {
            let i = choose|i: int| 0 <= i < s.len() && s[i] == y;
            assert(t[i] == y);
            assert(t.contains(y));
        }
        if y == x {
            assert(t[s.len() as int] == y);
            assert(t.contains(y));
        }
    }
}

/// Remove the single occurrence of `x` from a duplicate-free key list
/// (no effect when `x` does not occur).
fn remove_xid(xids: &mut Vec<u64>, x: u64)
    requires
        old(xids)@.no_duplicates(),
    ensures
        final(xids)@.no_duplicates(),
        forall|y: u64| #[trigger]
            final(xids)@.contains(y) <==> (old(xids)@.contains(y) && y != x),
{
    let mut i: usize = 0;
    while i < xids.len()
        invariant
            i <= xids@.len(),
            xids@ == old(xids)@,
            old(xids)@.no_duplicates(),
            forall|j: int| 0 <= j < i ==> xids@[j] != x,
        decreases xids@.len() - i,
    {
        if xids[i] == x {
            let s = Ghost(xids@);
            xids.remove(i);
            proof {
                let pre = s@;
                pre.remove_ensures(i as int);
                let post = xids@;
                assert(post == pre.remove(i as int));
                assert forall|p: int, q: int|
                    0 <= p < post.len() && 0 <= q < post.len() && p != q implies post[p]
                    != post[q] by {
                    let p0: int = if p < i { p } else { p + 1 };
                    let q0: int = if q < i { q } else { q + 1 };
                    assert(0 <= p0 < pre.len() && 0 <= q0 < pre.len() && p0 != q0);
                    assert(post[p] == pre[p0]);
                    assert(post[q] == pre[q0]);
                    assert(pre[p0] != pre[q0]);
                }
                assert forall|y: u64| #[trigger]
                    post.contains(y) <==> (pre.contains(y) && y != x) by {
                    if post.contains(y) {
                        let k = choose|k: int| 0 <= k < post.len() && post[k] == y;
                        let k0: int = if k < i { k } else { k + 1 };
                        assert(0 <= k0 < pre.len() && k0 != i);
                        assert(pre[k0] == y);
                        assert(pre.contains(y));
                        if y == x {
                            assert(pre[i as int] == x);
                            assert(pre[k0] != pre[i as int]);
                            assert(false);
                        }
                    }
                    if pre.contains(y) && y != x {
                        let k = choose|k: int| 0 <= k < pre.len() && pre[k] == y;
                        assert(k != i);
                        let k1: int = if k < i { k } else { k - 1 };
                        assert(post[k1] == y);
                        assert(post.contains(y));
                    }
                }
            }
            return ;
        }
        i = i + 1;
    }
    proof {
        assert forall|y: u64| #[trigger]
            xids@.contains(y) <==> (old(xids)@.contains(y) && y != x) by {
            if xids@.contains(y) && y == x {
                let k = choose|k: int| 0 <= k < xids@.len() && xids@[k] == y;
                assert(false);
            }
        }
    }
}

} // verus!
