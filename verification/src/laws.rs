//! Protocol laws, proved over the pure transition functions of the two
//! actors and over the hub's table transitions: agreement and validity
//! of the commit decision, stability of a fixed decision across
//! restarts, uniqueness of the actor created for a transaction id, and
//! idempotent discard of stray messages.

use vstd::prelude::*;

use crate::msg::Decision;
use crate::msg::MsgToRM;
use crate::msg::MsgToTM;
use crate::msg::RMState;
use crate::msg::Vote;
use crate::rm::rm_step;
use crate::rm::rm_stutter;
use crate::rm::RmAct;
use crate::rm::RmModel;
use crate::rm::RmOut;
use crate::tm::decisions_to;
use crate::tm::tm_decided;
use crate::tm::tm_inv;
use crate::tm::tm_step;
use crate::tm::tm_stutter;
use crate::tm::TmAct;
use crate::tm::TmModel;
use crate::tm::TmOut;

verus! {

/// The coordinator model after consuming the whole input sequence.
pub open spec fn tm_run(m: TmModel, acts: Seq<TmAct>) -> TmModel
    decreases acts.len(),
{
    if acts.len() == 0 {
        m
    } else {
        tm_run(tm_step(m, acts[0]).post, acts.drop_first())
    }
}

/// Everything the coordinator sends while consuming the input sequence,
/// in order.
pub open spec fn tm_run_out(m: TmModel, acts: Seq<TmAct>) -> Seq<TmOut>
    decreases acts.len(),
{
    if acts.len() == 0 {
        Seq::empty()
    } else {
        tm_step(m, acts[0]).out + tm_run_out(tm_step(m, acts[0]).post, acts.drop_first())
    }
}

/// Every decision message among `outs` carries the decision `d`.
pub open spec fn all_decisions_are(outs: Seq<TmOut>, d: Decision) -> bool {
    forall|i: int|
        0 <= i < outs.len() ==> ((#[trigger] outs[i]).msg matches MsgToRM::Decision(d2) ==> d2
            == d)
}

/// Somewhere in the input sequence, participant `p` cast a yes vote.
pub open spec fn yes_vote_in(acts: Seq<TmAct>, p: u64) -> bool {
    exists|i: int|
        0 <= i < acts.len() && #[trigger] acts[i] == (TmAct::Vote {
            source: p,
            vote: Vote::Yes,
        })
}

/// The coordinator invariant holds throughout any run.
pub proof fn lemma_tm_run_inv(m: TmModel, acts: Seq<TmAct>)
    requires
        tm_inv(m),
    ensures
        tm_inv(tm_run(m, acts)),
    decreases acts.len(),
{
    if acts.len() > 0 {
        crate::tm::lemma_tm_step_inv(m, acts[0]);
        lemma_tm_run_inv(tm_step(m, acts[0]).post, acts.drop_first());
    }
}

/// A finished coordinator is absorbing: any further input sequence
/// leaves it unchanged and produces nothing.
pub proof fn lemma_tm_end_absorbing(m: TmModel, acts: Seq<TmAct>)
    requires
        m.state is TMEnd,
    ensures
        tm_run(m, acts) == m,
        tm_run_out(m, acts) == Seq::<TmOut>::empty(),
    decreases acts.len(),
{
    if acts.len() > 0 {
        assert(tm_step(m, acts[0]) == tm_stutter(m));
        lemma_tm_end_absorbing(m, acts.drop_first());
        assert(tm_run_out(m, acts) =~= Seq::<TmOut>::empty());
    }
}

/// Law (termination under restart, decision side): once the coordinator
/// has fixed a decision, no later input sequence — any mix of votes,
/// acknowledgements, timeouts and restarts — can change it.  The
/// coordinator stays in delivery of that decision until it finishes,
/// and every message it still sends is that same decision.
pub proof fn lemma_tm_decision_irrevocable(m: TmModel, d: Decision, acts: Seq<TmAct>)
    requires
        tm_decided(m) == Some(d),
    ensures
        tm_decided(tm_run(m, acts)) == Some(d) || tm_run(m, acts).state is TMEnd,
        all_decisions_are(tm_run_out(m, acts), d),
        tm_run(m, acts).participants == m.participants,
    decreases acts.len(),
{
    if acts.len() > 0 {
        let s = tm_step(m, acts[0]);
        assert(all_decisions_are(s.out, d));
        if s.post.state is TMEnd {
            lemma_tm_end_absorbing(s.post, acts.drop_first());
        } else {
            lemma_tm_decision_irrevocable(s.post, d, acts.drop_first());
        }
        assert forall|i: int|
            0 <= i < tm_run_out(m, acts).len() implies ((#[trigger] tm_run_out(m, acts)[i]).msg
            matches MsgToRM::Decision(d2) ==> d2 == d) by {
            if i < s.out.len() {
                assert(tm_run_out(m, acts)[i] == s.out[i]);
            } else {
                assert(tm_run_out(m, acts)[i] == tm_run_out(s.post, acts.drop_first())[i
                    - s.out.len()]);
            }
        }
    }
}

/// Law (agreement, coordinator side): over any run of a coordinator
/// that satisfies its invariant, all decision messages it ever emits
/// agree — participants are never told a mixture of commit and abort.
pub proof fn lemma_tm_agreement(m: TmModel, acts: Seq<TmAct>)
    requires
        tm_inv(m),
    ensures
        exists|d: Decision| all_decisions_are(tm_run_out(m, acts), d),
    decreases acts.len(),
{
    if acts.len() == 0 {
        assert(all_decisions_are(tm_run_out(m, acts), Decision::Commit));
    } else if m.state is TMEnd {
        lemma_tm_end_absorbing(m, acts);
        assert(all_decisions_are(tm_run_out(m, acts), Decision::Commit));
    } else {
        match tm_decided(m) {
            Some(d) => {
                lemma_tm_decision_irrevocable(m, d, acts);
            },
            None => {
                let s = tm_step(m, acts[0]);
                let rest = acts.drop_first();
                match tm_decided(s.post) {
                    Some(d) => {
                        // this step fixed the decision: everything sent
                        // now and later carries it
                        assert(all_decisions_are(s.out, d));
                        lemma_tm_decision_irrevocable(s.post, d, rest);
                        assert forall|i: int|
                            0 <= i < tm_run_out(m, acts).len() implies ((#[trigger] tm_run_out(
                            m,
                            acts,
                        )[i]).msg matches MsgToRM::Decision(d2) ==> d2 == d) by {
                            if i < s.out.len() {
                                assert(tm_run_out(m, acts)[i] == s.out[i]);
                            } else {
                                assert(tm_run_out(m, acts)[i] == tm_run_out(s.post, rest)[i
                                    - s.out.len()]);
                            }
                        }
                        assert(all_decisions_are(tm_run_out(m, acts), d));
                    },
                    None => {
                        // still undecided: this step sent no decision
                        // message
                        crate::tm::lemma_tm_step_inv(m, acts[0]);
                        lemma_tm_agreement(s.post, rest);
                        let d = choose|d: Decision|
                            all_decisions_are(tm_run_out(s.post, rest), d);
                        assert forall|i: int|
                            0 <= i < tm_run_out(m, acts).len() implies ((#[trigger] tm_run_out(
                            m,
                            acts,
                        )[i]).msg matches MsgToRM::Decision(d2) ==> d2 == d) by {
                            if i < s.out.len() {
                                assert(tm_run_out(m, acts)[i] == s.out[i]);
                            } else {
                                assert(tm_run_out(m, acts)[i] == tm_run_out(s.post, rest)[i
                                    - s.out.len()]);
                            }
                        }
                        assert(all_decisions_are(tm_run_out(m, acts), d));
                    },
                }
            },
        }
    }
}

/// Every recorded yes-voter either was already recorded at the start of
/// the run or cast a yes vote during it.
pub proof fn lemma_tm_votes_provenance(m: TmModel, acts: Seq<TmAct>)
    ensures
        forall|p: u64| #[trigger]
            tm_run(m, acts).yes_voted.contains(p) ==> (m.yes_voted.contains(p) || yes_vote_in(
                acts,
                p,
            )),
    decreases acts.len(),
{
    if acts.len() > 0 {
        let s = tm_step(m, acts[0]);
        let rest = acts.drop_first();
        lemma_tm_votes_provenance(s.post, rest);
        assert forall|p: u64| #[trigger]
            tm_run(m, acts).yes_voted.contains(p) implies (m.yes_voted.contains(p)
            || yes_vote_in(acts, p)) by {
            assert(tm_run(m, acts) == tm_run(s.post, rest));
            if s.post.yes_voted.contains(p) && !m.yes_voted.contains(p) {
                // the head step recorded p: it was a yes vote from p
                assert(acts[0] == (TmAct::Vote { source: p, vote: Vote::Yes }));
                assert(yes_vote_in(acts, p));
            }
            if yes_vote_in(rest, p) {
                let i = choose|i: int|
                    0 <= i < rest.len() && #[trigger] rest[i] == (TmAct::Vote {
                        source: p,
                        vote: Vote::Yes,
                    });
                assert(acts[i + 1] == rest[i]);
                assert(yes_vote_in(acts, p));
            }
        }
    }
}

/// Law (validity, commit direction): if a run starting with no recorded
/// yes-votes ends with the commit decision fixed, every recorded
/// participant cast a yes vote during the run.
pub proof fn lemma_tm_commit_needs_all_yes(m: TmModel, acts: Seq<TmAct>)
    requires
        tm_inv(m),
        m.yes_voted == Seq::<u64>::empty(),
    ensures
        tm_run(m, acts).state is TMCommitting ==> forall|p: u64| #[trigger]
            tm_run(m, acts).participants.contains(p) ==> yes_vote_in(acts, p),
{
    lemma_tm_run_inv(m, acts);
    lemma_tm_votes_provenance(m, acts);
    let post = tm_run(m, acts);
    if post.state is TMCommitting {
        assert forall|p: u64| #[trigger] post.participants.contains(p) implies yes_vote_in(
            acts,
            p,
        ) by {
            assert(post.yes_voted.contains(p));
            assert(!m.yes_voted.contains(p));
        }
    }
}

/// Law (validity, abort direction): a negative vote from a recorded
/// participant, received while the coordinator is gathering votes,
/// fixes the abort decision at once and sends it to every participant.
pub proof fn lemma_tm_no_vote_aborts(m: TmModel, source: u64)
    requires
        m.state is TMPreparing,
        m.participants.contains(source),
    ensures
        ({
            let s = tm_step(m, TmAct::Vote { source: source, vote: Vote::No });
            &&& tm_decided(s.post) == Some(Decision::Abort)
            &&& s.out == decisions_to(m.participants, Decision::Abort)
            &&& !s.finished
        }),
{
}

/// Law (termination under restart, re-delivery): a restart of a
/// coordinator whose decision is fixed leaves its state exactly as it
/// was and re-sends that decision to every participant; no completion
/// event is produced.
pub proof fn lemma_tm_restart_resends_decision(m: TmModel, d: Decision)
    requires
        tm_decided(m) == Some(d),
    ensures
        ({
            let s = tm_step(m, TmAct::Restart);
            &&& s.post == m
            &&& s.out == decisions_to(m.participants, d)
            &&& !s.finished
        }),
{
}

/// Law (termination under restart, participant side): a restart of a
/// participant that has applied a decision re-sends its
/// acknowledgement to the coordinator it last heard from, without
/// changing state or finishing again.
pub proof fn lemma_rm_restart_resends_ack(m: RmModel, c: u64)
    requires
        m.state is RMDecided,
        m.coord == Some(c),
    ensures
        ({
            let s = rm_step(m, RmAct::Restart);
            &&& s.post == m
            &&& s.out == seq![RmOut { dest: c, msg: MsgToTM::Ack }]
            &&& !s.finished
        }),
{
}

/// Law (agreement, participant side): a participant that is asked to
/// decide applies exactly the decision delivered — it acknowledges the
/// sender and finishes, inventing nothing of its own.
pub proof fn lemma_rm_applies_delivered_decision(m: RmModel, source: u64, d: Decision)
    requires
        m.state is RMPrepared,
    ensures
        ({
            let s = rm_step(m, RmAct::Decide { source: source, decision: d });
            &&& s.post.state is RMEnd
            &&& s.out == seq![RmOut { dest: source, msg: MsgToTM::Ack }]
            &&& s.finished
        }),
{
}

/// Law: an idle participant asked to prepare casts the vote its local
/// readiness dictates and sends it to the requesting coordinator; it
/// never votes spontaneously in any other state.
pub proof fn lemma_rm_votes_its_readiness(m: RmModel, source: u64)
    requires
        m.state is RMInvalid,
    ensures
        ({
            let s = rm_step(m, RmAct::Prepare { source: source });
            &&& s.post.state == RMState::RMPrepared(crate::rm::vote_of(m.ready))
            &&& s.out == seq![
                RmOut { dest: source, msg: MsgToTM::Vote(crate::rm::vote_of(m.ready)) },
            ]
            &&& !s.finished
        }),
{
}

/// Law (progress): once a decision is fixed, the acknowledgement that
/// completes the participant set finishes the coordinator, producing
/// its completion event.
pub proof fn lemma_tm_final_ack_finishes(m: TmModel, p: u64)
    requires
        tm_decided(m) is Some,
        m.participants.contains(p),
        crate::tm::covers(m.participants, m.acked.push(p)),
    ensures
        ({
            let s = tm_step(m, TmAct::Ack { source: p });
            &&& s.post.state is TMEnd
            &&& s.finished
        }),
{
    let acked2 = if m.acked.contains(p) {
        m.acked
    } else {
        m.acked.push(p)
    };
    assert forall|q: u64| #[trigger] m.participants.contains(q) implies acked2.contains(q) by {
        assert(m.acked.push(p).contains(q));
        let i = choose|i: int| 0 <= i < m.acked.push(p).len() && m.acked.push(p)[i] == q;
        if i < m.acked.len() {
            assert(m.acked[i] == q);
            assert(m.acked.contains(q));
            if m.acked.contains(p) {
            } else {
                assert(acked2[i] == q);
            }
        } else {
            assert(q == p);
            if m.acked.contains(p) {
            } else {
                assert(acked2.last() == p);
            }
        }
    }
}

/// Law (termination, participant side): re-delivering the decision a
/// participant has already applied re-acknowledges it and finishes the
/// actor with the same outcome — re-delivery is idempotent.
pub proof fn lemma_rm_redelivery_completes(m: RmModel, source: u64, d: Decision)
    requires
        m.state == RMState::RMDecided(d),
    ensures
        ({
            let s = rm_step(m, RmAct::Decide { source: source, decision: d });
            &&& s.post.state is RMEnd
            &&& s.out == seq![RmOut { dest: source, msg: MsgToTM::Ack }]
            &&& s.finished
        }),
{
}

/// One acknowledgement input per listed participant, in order.
pub open spec fn acks_of(ps: Seq<u64>) -> Seq<TmAct> {
    Seq::new(ps.len(), |i: int| TmAct::Ack { source: ps[i] })
}

/// Law (termination): a coordinator whose decision is fixed reaches its
/// terminal state once the missing acknowledgements arrive — feed it an
/// acknowledgement from every participant not yet recorded (in any
/// order, duplicates included) and it ends in `TMEnd`.
pub proof fn lemma_tm_acks_from_all_reach_end(m: TmModel, ps: Seq<u64>)
    requires
        tm_decided(m) is Some,
        ps.len() >= 1,
        forall|i: int| 0 <= i < ps.len() ==> m.participants.contains(#[trigger] ps[i]),
        crate::tm::covers(m.participants, m.acked + ps),
    ensures
        tm_run(m, acks_of(ps)).state is TMEnd,
    decreases ps.len(),
{
    let s = tm_step(m, TmAct::Ack { source: ps[0] });
    let acts = acks_of(ps);
    assert(acts[0] == (TmAct::Ack { source: ps[0] }));
    let acked2 = if m.acked.contains(ps[0]) {
        m.acked
    } else {
        m.acked.push(ps[0])
    };
    // whatever `m.acked + ps` covered is still covered by the new record
    // together with the remaining acknowledgements
    assert forall|q: u64| #[trigger]
        m.participants.contains(q) implies (acked2 + ps.drop_first()).contains(q) by {
        assert((m.acked + ps).contains(q));
        let i = choose|i: int| 0 <= i < (m.acked + ps).len() && (m.acked + ps)[i] == q;
        let rest = ps.drop_first();
        if i < m.acked.len() {
            assert(m.acked[i] == q);
            if m.acked.contains(ps[0]) {
                assert((acked2 + rest)[i] == q);
            } else {
                assert(acked2[i] == q);
                assert((acked2 + rest)[i] == q);
            }
        } else if i == m.acked.len() {
            assert(q == ps[0]);
            if m.acked.contains(ps[0]) {
                let j = choose|j: int| 0 <= j < m.acked.len() && m.acked[j] == q;
                assert((acked2 + rest)[j] == q);
            } else {
                assert(acked2.last() == q);
                assert((acked2 + rest)[acked2.len() - 1] == q);
            }
        } else {
            // q is one of the remaining listed participants
            assert(ps[i - m.acked.len()] == q);
            assert(rest[i - m.acked.len() - 1] == q);
            assert((acked2 + rest)[acked2.len() + (i - m.acked.len() - 1)] == q);
        }
    }
    if ps.len() == 1 {
        assert(acked2 + ps.drop_first() =~= acked2);
        assert(crate::tm::covers(m.participants, acked2));
        assert(s.post.state is TMEnd);
        assert(acts.drop_first() =~= Seq::<TmAct>::empty());
        assert(tm_run(m, acts) == s.post);
    } else {
        if s.post.state is TMEnd {
            lemma_tm_end_absorbing(s.post, acts.drop_first());
        } else {
            assert(s.post.acked == acked2);
            assert(s.post.participants == m.participants);
            assert(tm_decided(s.post) == tm_decided(m));
            assert(acts.drop_first() =~= acks_of(ps.drop_first()));
            lemma_tm_acks_from_all_reach_end(s.post, ps.drop_first());
        }
    }
}

/// Law (stray-message idempotence, coordinator): a coordinator already
/// in its terminal state ignores every input — no state change, nothing
/// sent, no additional completion event.
pub proof fn lemma_tm_end_ignores(m: TmModel, a: TmAct)
    requires
        m.state is TMEnd,
    ensures
        tm_step(m, a) == tm_stutter(m),
        tm_step(m, a).post == m,
        tm_step(m, a).out == Seq::<TmOut>::empty(),
        !tm_step(m, a).finished,
{
}

/// Law (stray-message idempotence, participant): a participant already
/// in its terminal state ignores every input.
pub proof fn lemma_rm_end_ignores(m: RmModel, a: RmAct)
    requires
        m.state is RMEnd,
    ensures
        rm_step(m, a) == rm_stutter(m),
        rm_step(m, a).post == m,
        rm_step(m, a).out == Seq::<RmOut>::empty(),
        !rm_step(m, a).finished,
{
}

/// The actor-table keys after routing one message per listed
/// transaction id: the hub's check-or-insert adds each id to the key
/// set.
pub open spec fn doms_after_routing(dom: Set<u64>, xids: Seq<u64>) -> Set<u64>
    decreases xids.len(),
{
    if xids.len() == 0 {
        dom
    } else {
        doms_after_routing(dom.insert(xids[0]), xids.drop_first())
    }
}

/// Law (at-most-one actor per transaction id): routing any number of
/// messages that all reference the same unseen transaction id leaves
/// the table with exactly that one key added — the first message
/// creates the actor, every later one reuses it.
pub proof fn lemma_one_actor_per_xid(dom: Set<u64>, x: u64, xids: Seq<u64>)
    requires
        !dom.contains(x),
        xids.len() >= 1,
        forall|i: int| 0 <= i < xids.len() ==> xids[i] == x,
    ensures
        doms_after_routing(dom, xids) == dom.insert(x),
        doms_after_routing(dom, xids).len() == dom.len() + 1 || !dom.finite(),
    decreases xids.len(),
{
    let d1 = dom.insert(x);
    if xids.len() == 1 {
        assert(doms_after_routing(d1, xids.drop_first()) == d1);
    } else {
        assert(d1.contains(x));
        lemma_same_key_absorbed(d1, x, xids.drop_first());
    }
    if dom.finite() {
        vstd::set::axiom_set_insert_len(dom, x);
    }
}

/// Routing further messages for a transaction id the table already
/// holds changes nothing.
proof fn lemma_same_key_absorbed(dom: Set<u64>, x: u64, xids: Seq<u64>)
    requires
        dom.contains(x),
        forall|i: int| 0 <= i < xids.len() ==> xids[i] == x,
    ensures
        doms_after_routing(dom, xids) == dom,
    decreases xids.len(),
{
    if xids.len() > 0 {
        assert(dom.insert(x) =~= dom);
        lemma_same_key_absorbed(dom, x, xids.drop_first());
    }
}

/// One routed coordinator-bound message's effect on the coordinator
/// table's key set, as the hub's contract states it, is exactly one
/// `insert` of the referenced transaction id.
pub proof fn lemma_route_adds_one_tm_key(
    pre: crate::hub::TxCoordCommit,
    post: crate::hub::TxCoordCommit,
    x: u64,
    model: TmModel,
)
    requires
        crate::hub::tm_table_steps(pre, post, x, model),
    ensures
        post.tm_map@.dom() == pre.tm_map@.dom().insert(x),
{
    assert(post.tm_map@.dom() =~= pre.tm_map@.dom().insert(x));
}

/// The participant-table counterpart.
pub proof fn lemma_route_adds_one_rm_key(
    pre: crate::hub::TxCoordCommit,
    post: crate::hub::TxCoordCommit,
    x: u64,
    model: RmModel,
)
    requires
        crate::hub::rm_table_steps(pre, post, x, model),
    ensures
        post.rm_map@.dom() == pre.rm_map@.dom().insert(x),
{
    assert(post.rm_map@.dom() =~= pre.rm_map@.dom().insert(x));
}

} // verus!

