//! End-to-end exercises of the hub and both actor roles: the happy
//! path, abort on dissent, crash recovery, the testing hooks, and the
//! idempotent discard of stray messages.

use tx_coord::hub::RouteOutput;
use tx_coord::hub::TxCoordCommit;
use tx_coord::msg::DTMTesting;
use tx_coord::msg::Decision;
use tx_coord::msg::MTState;
use tx_coord::msg::MsgToRM;
use tx_coord::msg::MsgToTM;
use tx_coord::msg::RMState;
use tx_coord::msg::TMState;
use tx_coord::msg::TxCoordEvent;
use tx_coord::msg::TxMsg;
use tx_coord::msg::Vote;

const TM_NODE: u64 = 100;
const NODE_A: u64 = 1;
const NODE_B: u64 = 2;

fn tm_hub() -> TxCoordCommit {
    TxCoordCommit::new(TM_NODE, 1, true)
}

fn rm_hub(node: u64, ready: bool) -> TxCoordCommit {
    TxCoordCommit::new(node, 1, ready)
}

fn begin(hub: &mut TxCoordCommit, xid: u64, participants: Vec<u64>) -> RouteOutput {
    hub.recv_msg(
        TxMsg::Testing(DTMTesting::TMBegin { xid, participants }),
        TM_NODE,
        TM_NODE,
    )
}

fn vote(hub: &mut TxCoordCommit, xid: u64, from: u64, v: Vote) -> RouteOutput {
    hub.recv_msg(TxMsg::ToTM { xid, msg: MsgToTM::Vote(v) }, from, TM_NODE)
}

fn ack(hub: &mut TxCoordCommit, xid: u64, from: u64) -> RouteOutput {
    hub.recv_msg(TxMsg::ToTM { xid, msg: MsgToTM::Ack }, from, TM_NODE)
}

fn decisions_of(out: &RouteOutput) -> Vec<(u64, Decision)> {
    let mut r = Vec::new();
    for o in &out.outbound {
        if let TxMsg::ToRM { msg: MsgToRM::Decision(d), .. } = o.envelope.payload {
            r.push((o.envelope.dest, d));
        }
    }
    r
}

fn prepares_of(out: &RouteOutput) -> Vec<u64> {
    let mut r = Vec::new();
    for o in &out.outbound {
        if let TxMsg::ToRM { msg: MsgToRM::Prepare, .. } = o.envelope.payload {
            r.push(o.envelope.dest);
        }
    }
    r
}

#[test]
fn happy_path_commit() {
    let mut hub = tm_hub();
    let out = begin(&mut hub, 1, vec![NODE_A, NODE_B]);
    assert_eq!(prepares_of(&out), vec![NODE_A, NODE_B]);
    assert!(out.events.is_empty());
    assert_eq!(hub.tm_state_of(1), Some(TMState::TMPreparing));

    let out = vote(&mut hub, 1, NODE_A, Vote::Yes);
    assert!(out.outbound.is_empty());
    let out = vote(&mut hub, 1, NODE_B, Vote::Yes);
    assert_eq!(
        decisions_of(&out),
        vec![(NODE_A, Decision::Commit), (NODE_B, Decision::Commit)]
    );
    assert_eq!(hub.tm_state_of(1), Some(TMState::TMCommitting));

    let out = ack(&mut hub, 1, NODE_A);
    assert!(out.events.is_empty());
    let out = ack(&mut hub, 1, NODE_B);
    assert_eq!(out.events, vec![TxCoordEvent::TMEnd(1)]);
    assert_eq!(hub.tm_state_of(1), Some(TMState::TMEnd));

    hub.handle_event(TxCoordEvent::TMEnd(1));
    assert_eq!(hub.tm_state_of(1), None);
}

#[test]
fn happy_path_participants() {
    for node in [NODE_A, NODE_B] {
        let mut hub = rm_hub(node, true);
        let out = hub.recv_msg(TxMsg::ToRM { xid: 1, msg: MsgToRM::Prepare }, TM_NODE, node);
        assert_eq!(out.outbound.len(), 1);
        let o = &out.outbound[0];
        assert_eq!(o.envelope.dest, TM_NODE);
        assert!(matches!(
            o.envelope.payload,
            TxMsg::ToTM { xid: 1, msg: MsgToTM::Vote(Vote::Yes) }
        ));
        assert_eq!(hub.rm_state_of(1), Some(RMState::RMPrepared(Vote::Yes)));

        let out = hub.recv_msg(
            TxMsg::ToRM { xid: 1, msg: MsgToRM::Decision(Decision::Commit) },
            TM_NODE,
            node,
        );
        assert_eq!(out.outbound.len(), 1);
        assert!(matches!(
            out.outbound[0].envelope.payload,
            TxMsg::ToTM { xid: 1, msg: MsgToTM::Ack }
        ));
        assert_eq!(out.events, vec![TxCoordEvent::RMEnd(1)]);
        assert_eq!(hub.rm_state_of(1), Some(RMState::RMEnd));

        hub.handle_event(TxCoordEvent::RMEnd(1));
        assert_eq!(hub.rm_state_of(1), None);
    }
}

#[test]
fn abort_on_dissent() {
    let mut hub = tm_hub();
    begin(&mut hub, 1, vec![NODE_A, NODE_B]);
    let out = vote(&mut hub, 1, NODE_A, Vote::Yes);
    assert!(decisions_of(&out).is_empty());
    let out = vote(&mut hub, 1, NODE_B, Vote::No);
    assert_eq!(
        decisions_of(&out),
        vec![(NODE_A, Decision::Abort), (NODE_B, Decision::Abort)]
    );
    assert_eq!(hub.tm_state_of(1), Some(TMState::TMAborting));

    // the dissenting participant still applies the decision and acknowledges
    let mut b = rm_hub(NODE_B, false);
    let out = b.recv_msg(TxMsg::ToRM { xid: 1, msg: MsgToRM::Prepare }, TM_NODE, NODE_B);
    assert!(matches!(
        out.outbound[0].envelope.payload,
        TxMsg::ToTM { xid: 1, msg: MsgToTM::Vote(Vote::No) }
    ));
    let out = b.recv_msg(
        TxMsg::ToRM { xid: 1, msg: MsgToRM::Decision(Decision::Abort) },
        TM_NODE,
        NODE_B,
    );
    assert!(matches!(
        out.outbound[0].envelope.payload,
        TxMsg::ToTM { xid: 1, msg: MsgToTM::Ack }
    ));
    assert_eq!(out.events, vec![TxCoordEvent::RMEnd(1)]);

    // the assenting participant applies the same abort
    let mut a = rm_hub(NODE_A, true);
    a.recv_msg(TxMsg::ToRM { xid: 1, msg: MsgToRM::Prepare }, TM_NODE, NODE_A);
    let out = a.recv_msg(
        TxMsg::ToRM { xid: 1, msg: MsgToRM::Decision(Decision::Abort) },
        TM_NODE,
        NODE_A,
    );
    assert_eq!(out.events, vec![TxCoordEvent::RMEnd(1)]);

    // both acks finish the coordinator
    ack(&mut hub, 1, NODE_A);
    let out = ack(&mut hub, 1, NODE_B);
    assert_eq!(out.events, vec![TxCoordEvent::TMEnd(1)]);
}

#[test]
fn crash_after_decision_resends_commit() {
    let mut hub = tm_hub();
    begin(&mut hub, 2, vec![NODE_A, NODE_B]);
    vote(&mut hub, 2, NODE_A, Vote::Yes);
    vote(&mut hub, 2, NODE_B, Vote::Yes);
    ack(&mut hub, 2, NODE_A);

    // crash before all acks arrived: the decision survives and is re-sent
    let out = hub.recv_msg(TxMsg::Testing(DTMTesting::Restart), TM_NODE, TM_NODE);
    assert_eq!(hub.tm_state_of(2), Some(TMState::TMCommitting));
    assert_eq!(
        decisions_of(&out),
        vec![(NODE_A, Decision::Commit), (NODE_B, Decision::Commit)]
    );
    assert!(out.events.is_empty());

    let out = ack(&mut hub, 2, NODE_B);
    assert_eq!(out.events, vec![TxCoordEvent::TMEnd(2)]);
    assert_eq!(hub.tm_state_of(2), Some(TMState::TMEnd));
}

#[test]
fn restart_before_decision_reverts_to_init() {
    let mut hub = tm_hub();
    begin(&mut hub, 1, vec![NODE_A, NODE_B]);
    vote(&mut hub, 1, NODE_A, Vote::Yes);
    let out = hub.recv_msg(TxMsg::Testing(DTMTesting::Restart), TM_NODE, TM_NODE);
    assert!(out.outbound.is_empty());
    assert_eq!(hub.tm_state_of(1), Some(TMState::TMInit));

    // the prepare phase can be driven again, and the lost vote must be re-cast
    let out = begin(&mut hub, 1, vec![NODE_A, NODE_B]);
    assert_eq!(prepares_of(&out), vec![NODE_A, NODE_B]);
    vote(&mut hub, 1, NODE_A, Vote::Yes);
    let out = vote(&mut hub, 1, NODE_B, Vote::Yes);
    assert_eq!(
        decisions_of(&out),
        vec![(NODE_A, Decision::Commit), (NODE_B, Decision::Commit)]
    );
}

#[test]
fn setup_then_check() {
    let mut hub = rm_hub(NODE_A, true);
    let out = hub.recv_msg(
        TxMsg::Testing(DTMTesting::Setup(MTState {
            tm_state: vec![],
            rm_state: vec![(3, RMState::RMPrepared(Vote::Yes))],
        })),
        TM_NODE,
        NODE_A,
    );
    assert!(out.check_ok);
    assert_eq!(hub.rm_state_of(3), Some(RMState::RMPrepared(Vote::Yes)));

    let out = hub.recv_msg(
        TxMsg::Testing(DTMTesting::Check(MTState {
            tm_state: vec![],
            rm_state: vec![(3, RMState::RMPrepared(Vote::Yes))],
        })),
        TM_NODE,
        NODE_A,
    );
    assert!(out.check_ok);

    let out = hub.recv_msg(
        TxMsg::Testing(DTMTesting::Check(MTState {
            tm_state: vec![],
            rm_state: vec![(3, RMState::RMDecided(Decision::Commit))],
        })),
        TM_NODE,
        NODE_A,
    );
    assert!(!out.check_ok);
}

#[test]
fn check_creates_missing_actor_in_initial_state() {
    let mut hub = tm_hub();
    let out = hub.recv_msg(
        TxMsg::Testing(DTMTesting::Check(MTState {
            tm_state: vec![(9, TMState::TMPreparing)],
            rm_state: vec![],
        })),
        TM_NODE,
        TM_NODE,
    );
    assert!(!out.check_ok);
    let out = hub.recv_msg(
        TxMsg::Testing(DTMTesting::Check(MTState {
            tm_state: vec![(9, TMState::TMInvalid)],
            rm_state: vec![],
        })),
        TM_NODE,
        TM_NODE,
    );
    assert!(out.check_ok);
}

#[test]
fn setup_decided_then_matching_decision_completes() {
    let mut hub = rm_hub(NODE_A, true);
    hub.recv_msg(
        TxMsg::Testing(DTMTesting::Setup(MTState {
            tm_state: vec![],
            rm_state: vec![(4, RMState::RMDecided(Decision::Abort))],
        })),
        TM_NODE,
        NODE_A,
    );
    // a decision other than the applied one is a stray and is discarded
    let out = hub.recv_msg(
        TxMsg::ToRM { xid: 4, msg: MsgToRM::Decision(Decision::Commit) },
        TM_NODE,
        NODE_A,
    );
    assert!(out.outbound.is_empty());
    assert!(out.events.is_empty());
    assert_eq!(hub.rm_state_of(4), Some(RMState::RMDecided(Decision::Abort)));
    // the matching decision is re-acknowledged and finishes the actor
    let out = hub.recv_msg(
        TxMsg::ToRM { xid: 4, msg: MsgToRM::Decision(Decision::Abort) },
        TM_NODE,
        NODE_A,
    );
    assert!(matches!(
        out.outbound[0].envelope.payload,
        TxMsg::ToTM { xid: 4, msg: MsgToTM::Ack }
    ));
    assert_eq!(out.events, vec![TxCoordEvent::RMEnd(4)]);
}

#[test]
fn stray_messages_after_end_are_ignored() {
    let mut hub = tm_hub();
    begin(&mut hub, 1, vec![NODE_A]);
    vote(&mut hub, 1, NODE_A, Vote::Yes);
    let out = ack(&mut hub, 1, NODE_A);
    assert_eq!(out.events, vec![TxCoordEvent::TMEnd(1)]);

    // duplicates delivered before the completion event is drained
    let out = ack(&mut hub, 1, NODE_A);
    assert!(out.outbound.is_empty());
    assert!(out.events.is_empty());
    let out = vote(&mut hub, 1, NODE_A, Vote::No);
    assert!(out.outbound.is_empty());
    assert!(out.events.is_empty());
    assert_eq!(hub.tm_state_of(1), Some(TMState::TMEnd));

    let mut rm = rm_hub(NODE_A, true);
    rm.recv_msg(TxMsg::ToRM { xid: 1, msg: MsgToRM::Prepare }, TM_NODE, NODE_A);
    rm.recv_msg(
        TxMsg::ToRM { xid: 1, msg: MsgToRM::Decision(Decision::Commit) },
        TM_NODE,
        NODE_A,
    );
    let out = rm.recv_msg(
        TxMsg::ToRM { xid: 1, msg: MsgToRM::Decision(Decision::Commit) },
        TM_NODE,
        NODE_A,
    );
    assert!(out.outbound.is_empty());
    assert!(out.events.is_empty());
    assert_eq!(rm.rm_state_of(1), Some(RMState::RMEnd));
}

#[test]
fn duplicate_prepare_re_casts_the_same_vote() {
    let mut hub = rm_hub(NODE_B, false);
    let first = hub.recv_msg(TxMsg::ToRM { xid: 5, msg: MsgToRM::Prepare }, TM_NODE, NODE_B);
    let second = hub.recv_msg(TxMsg::ToRM { xid: 5, msg: MsgToRM::Prepare }, TM_NODE, NODE_B);
    for out in [first, second] {
        assert_eq!(out.outbound.len(), 1);
        assert!(matches!(
            out.outbound[0].envelope.payload,
            TxMsg::ToTM { xid: 5, msg: MsgToTM::Vote(Vote::No) }
        ));
        assert!(out.events.is_empty());
    }
    assert_eq!(hub.rm_state_of(5), Some(RMState::RMPrepared(Vote::No)));
}

#[test]
fn one_actor_per_xid() {
    let mut hub = tm_hub();
    for _ in 0..3 {
        vote(&mut hub, 7, NODE_A, Vote::Yes);
    }
    assert_eq!(hub.tm_map.len(), 1);
    for _ in 0..3 {
        hub.recv_msg(TxMsg::ToRM { xid: 7, msg: MsgToRM::Prepare }, TM_NODE, NODE_A);
    }
    assert_eq!(hub.rm_map.len(), 1);
}

#[test]
fn vote_timeout_forces_abort() {
    let mut hub = tm_hub();
    begin(&mut hub, 6, vec![NODE_A, NODE_B]);
    vote(&mut hub, 6, NODE_A, Vote::Yes);
    let out = hub.recv_msg(
        TxMsg::Testing(DTMTesting::TMTimeout { xid: 6 }),
        TM_NODE,
        TM_NODE,
    );
    assert_eq!(
        decisions_of(&out),
        vec![(NODE_A, Decision::Abort), (NODE_B, Decision::Abort)]
    );
    assert_eq!(hub.tm_state_of(6), Some(TMState::TMAborting));
}

#[test]
fn votes_from_strangers_are_ignored() {
    let mut hub = tm_hub();
    begin(&mut hub, 1, vec![NODE_A]);
    let out = vote(&mut hub, 1, NODE_B, Vote::No);
    assert!(out.outbound.is_empty());
    assert_eq!(hub.tm_state_of(1), Some(TMState::TMPreparing));
    let out = vote(&mut hub, 1, NODE_A, Vote::Yes);
    assert_eq!(decisions_of(&out), vec![(NODE_A, Decision::Commit)]);
}

#[test]
fn outbound_channels_stay_in_range() {
    let mut hub = TxCoordCommit::new(TM_NODE, 3, true);
    let out = begin(&mut hub, 1, vec![NODE_A, NODE_B]);
    for o in &out.outbound {
        assert!(o.channel < 3);
        assert_eq!(o.envelope.source, TM_NODE);
    }
}

#[test]
fn rm_restart_without_decision_forgets_the_vote() {
    let mut hub = rm_hub(NODE_A, true);
    hub.recv_msg(TxMsg::ToRM { xid: 8, msg: MsgToRM::Prepare }, TM_NODE, NODE_A);
    assert_eq!(hub.rm_state_of(8), Some(RMState::RMPrepared(Vote::Yes)));
    let out = hub.recv_msg(TxMsg::Testing(DTMTesting::Restart), TM_NODE, NODE_A);
    assert!(out.outbound.is_empty());
    assert_eq!(hub.rm_state_of(8), Some(RMState::RMInvalid));
}

/// Deliver every envelope to the hub of its destination node until no
/// messages remain, collecting completion events per node.
fn run_network(
    hubs: &mut Vec<(u64, TxCoordCommit)>,
    mut queue: Vec<tx_coord::msg::Envelope>,
) -> Vec<(u64, TxCoordEvent)> {
    let mut events = Vec::new();
    while let Some(env) = queue.pop() {
        let dest = env.dest;
        let hub = hubs
            .iter_mut()
            .find(|(n, _)| *n == dest)
            .map(|(_, h)| h)
            .expect("unknown destination node");
        let out = hub.route(env);
        for o in out.outbound {
            queue.push(o.envelope);
        }
        for e in out.events {
            events.push((dest, e));
        }
    }
    events
}

#[test]
fn full_exchange_commits_everywhere() {
    let mut hubs = vec![
        (TM_NODE, tm_hub()),
        (NODE_A, rm_hub(NODE_A, true)),
        (NODE_B, rm_hub(NODE_B, true)),
    ];
    let start = tx_coord::msg::Envelope {
        source: TM_NODE,
        dest: TM_NODE,
        payload: TxMsg::Testing(DTMTesting::TMBegin { xid: 1, participants: vec![NODE_A, NODE_B] }),
    };
    let events = run_network(&mut hubs, vec![start]);
    assert_eq!(events.len(), 3);
    assert!(events.contains(&(NODE_A, TxCoordEvent::RMEnd(1))));
    assert!(events.contains(&(NODE_B, TxCoordEvent::RMEnd(1))));
    assert!(events.contains(&(TM_NODE, TxCoordEvent::TMEnd(1))));
    for (node, hub) in hubs.iter_mut() {
        if *node == TM_NODE {
            assert_eq!(hub.tm_state_of(1), Some(TMState::TMEnd));
        } else {
            assert_eq!(hub.rm_state_of(1), Some(RMState::RMEnd));
        }
    }
    for (node, event) in events {
        let hub = hubs.iter_mut().find(|(n, _)| *n == node).map(|(_, h)| h).unwrap();
        hub.handle_event(event);
    }
    for (_, hub) in &hubs {
        assert!(hub.tm_map.is_empty());
        assert!(hub.rm_map.is_empty());
    }
}

#[test]
fn full_exchange_aborts_everywhere_on_dissent() {
    let mut hubs = vec![
        (TM_NODE, tm_hub()),
        (NODE_A, rm_hub(NODE_A, true)),
        (NODE_B, rm_hub(NODE_B, false)),
    ];
    let start = tx_coord::msg::Envelope {
        source: TM_NODE,
        dest: TM_NODE,
        payload: TxMsg::Testing(DTMTesting::TMBegin { xid: 1, participants: vec![NODE_A, NODE_B] }),
    };
    let events = run_network(&mut hubs, vec![start]);
    // delivery here is last-in-first-out, so one participant saw the
    // abort before its prepare request and discarded it as a stray: the
    // coordinator is still waiting for that acknowledgement
    assert!(events.contains(&(NODE_B, TxCoordEvent::RMEnd(1))));
    {
        let tm = hubs.iter_mut().find(|(n, _)| *n == TM_NODE).map(|(_, h)| h).unwrap();
        assert_eq!(tm.tm_state_of(1), Some(TMState::TMAborting));
    }
    // a coordinator restart re-delivers the abort decision, which now
    // reaches the prepared participant; its acknowledgement joins the
    // retained one and every actor finishes with the same outcome
    let restart = tx_coord::msg::Envelope {
        source: TM_NODE,
        dest: TM_NODE,
        payload: TxMsg::Testing(DTMTesting::Restart),
    };
    let events = run_network(&mut hubs, vec![restart]);
    assert!(events.contains(&(NODE_A, TxCoordEvent::RMEnd(1))));
    assert!(events.contains(&(TM_NODE, TxCoordEvent::TMEnd(1))));
    for (node, hub) in hubs.iter_mut() {
        if *node == TM_NODE {
            assert_eq!(hub.tm_state_of(1), Some(TMState::TMEnd));
        } else {
            assert_eq!(hub.rm_state_of(1), Some(RMState::RMEnd));
        }
    }
}
