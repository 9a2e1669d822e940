use paxos_core::Outbound;
use paxos_core::PaxosActor;
use paxos_core::PaxosMsg;
use paxos_core::PaxosState;
use paxos_core::RoundIdentifier;
use paxos_core::is_majority;

fn rid(round_num: u32, id: u64) -> RoundIdentifier {
    RoundIdentifier { round_num, id }
}

fn actor3() -> PaxosActor {
    PaxosActor { peers: vec![1, 2, 3] }
}

/// Deliver every queued (src, dst, msg) in FIFO order until the network is
/// drained, feeding handler output back into the queue. Messages to or from
/// a node in `drop` are lost. Client replies are collected separately.
fn pump(
    actor: &PaxosActor,
    states: &mut Vec<PaxosState>,
    queue: &mut Vec<(u64, u64, PaxosMsg)>,
    replies: &mut Vec<(u64, u64, char)>,
    drop: &[u64],
) {
    while !queue.is_empty() {
        let (src, dst, msg) = queue.remove(0);
        if drop.contains(&src) || drop.contains(&dst) {
            continue;
        }
        let out = actor.on_msg(&mut states[(dst - 1) as usize], src, msg);
        for o in out {
            match o {
                Outbound::Send(to, m) => queue.push((dst, to, m)),
                Outbound::Broadcast(m) => {
                    for p in &actor.peers {
                        queue.push((dst, *p, m));
                    }
                }
                Outbound::Decided(req, corr, v) => replies.push((req, corr, v)),
            }
        }
    }
}

fn enqueue(actor: &PaxosActor, queue: &mut Vec<(u64, u64, PaxosMsg)>, src: u64, out: Vec<Outbound>) {
    for o in out {
        match o {
            Outbound::Send(to, m) => queue.push((src, to, m)),
            Outbound::Broadcast(m) => {
                for p in &actor.peers {
                    queue.push((src, *p, m));
                }
            }
            Outbound::Decided(..) => panic!("propose does not decide"),
        }
    }
}

#[test]
fn majority_thresholds() {
    assert!(is_majority(2, 3));
    assert!(!is_majority(1, 3));
    assert!(is_majority(3, 4));
    assert!(!is_majority(2, 4));
    assert!(is_majority(1, 1));
    assert!(!is_majority(0, 0));
    assert!(is_majority(3, 5));
    assert!(!is_majority(2, 5));
}

#[test]
fn ballots_strictly_increase_per_node() {
    let actor = actor3();
    let mut s = actor.on_start(1);
    let r1 = s.next_round();
    let r2 = s.next_round();
    let r3 = s.next_round();
    assert!(r1 < r2);
    assert!(r2 < r3);
    assert_eq!(r1, rid(1, 1));
    assert_eq!(r2, rid(2, 1));
}

#[test]
fn ballots_of_distinct_nodes_never_collide() {
    let actor = actor3();
    let mut a = actor.on_start(1);
    let mut b = actor.on_start(2);
    let ra = a.next_round();
    let rb = b.next_round();
    assert_eq!(ra.round_num, rb.round_num);
    assert_ne!(ra, rb);
    // equal rounds tie-break on the node id
    assert!(ra < rb);
}

#[test]
fn ballot_order_is_by_round_then_id() {
    assert!(rid(1, 3) < rid(2, 1));
    assert!(rid(2, 1) < rid(2, 2));
    assert!(!(rid(2, 2) < rid(1, 3)));
    assert_eq!(rid(2, 2).partial_cmp(&rid(2, 2)), Some(std::cmp::Ordering::Equal));
}

#[test]
fn prepare_grants_promise_and_reports_accepted() {
    let actor = actor3();
    let mut s = actor.on_start(2);
    let out = actor.on_msg(&mut s, 1, PaxosMsg::Prepare(7, 9, rid(1, 1)));
    assert_eq!(out, vec![Outbound::Send(1, PaxosMsg::Promise(7, 9, rid(1, 1), None))]);
    assert_eq!(s.last_seen, Some(rid(1, 1)));
    // a lower ballot is refused with a Nack and moves nothing
    let out2 = actor.on_msg(&mut s, 3, PaxosMsg::Prepare(8, 9, rid(1, 1)));
    assert_eq!(out2, vec![Outbound::Send(3, PaxosMsg::Nack(8, 9, rid(1, 1)))]);
    assert_eq!(s.last_seen, Some(rid(1, 1)));
    // a higher one is granted, reporting the accepted pair if there is one
    actor.on_msg(&mut s, 1, PaxosMsg::Accept(7, 9, rid(1, 1), 'x'));
    let out3 = actor.on_msg(&mut s, 3, PaxosMsg::Prepare(8, 9, rid(2, 3)));
    assert_eq!(
        out3,
        vec![Outbound::Send(3, PaxosMsg::Promise(8, 9, rid(2, 3), Some((rid(1, 1), 'x'))))]
    );
}

#[test]
fn acceptor_ignores_ballot_below_promise() {
    let actor = actor3();
    let mut s = actor.on_start(2);
    actor.on_msg(&mut s, 1, PaxosMsg::Prepare(7, 9, rid(2, 2)));
    assert_eq!(s.last_seen, Some(rid(2, 2)));
    // an Accept for a lower ballot than the promise is ignored
    let out = actor.on_msg(&mut s, 1, PaxosMsg::Accept(7, 9, rid(1, 1), 'x'));
    assert!(out.is_empty());
    assert_eq!(s.highest_accepted, None);
    // only the exact promised ballot is accepted
    let out2 = actor.on_msg(&mut s, 1, PaxosMsg::Accept(7, 9, rid(2, 2), 'x'));
    assert_eq!(out2, vec![Outbound::Broadcast(PaxosMsg::Accepted(7, 9, rid(2, 2), 'x'))]);
    assert_eq!(s.highest_accepted, Some((rid(2, 2), 'x')));
}

#[test]
fn proposer_adopts_highest_reported_value() {
    let actor = actor3();
    let mut s = actor.on_start(1);
    let out = actor.propose(&mut s, 9, 7, 'w');
    assert_eq!(out, vec![Outbound::Broadcast(PaxosMsg::Prepare(7, 9, rid(1, 1)))]);
    // first promise reports a previously accepted pair
    let o1 = actor.on_msg(&mut s, 2, PaxosMsg::Promise(7, 9, rid(1, 1), Some((rid(3, 2), 'v'))));
    assert!(o1.is_empty());
    // majority reached: the Accept must carry the reported value, not 'w'
    let o2 = actor.on_msg(&mut s, 3, PaxosMsg::Promise(7, 9, rid(1, 1), None));
    assert_eq!(o2, vec![Outbound::Broadcast(PaxosMsg::Accept(7, 9, rid(1, 1), 'v'))]);
}

#[test]
fn proposer_adopts_value_of_highest_ballot_among_reports() {
    let actor = actor3();
    let mut s = actor.on_start(1);
    actor.propose(&mut s, 9, 7, 'w');
    let o1 = actor.on_msg(&mut s, 2, PaxosMsg::Promise(7, 9, rid(1, 1), Some((rid(2, 2), 'a'))));
    assert!(o1.is_empty());
    let o2 = actor.on_msg(&mut s, 3, PaxosMsg::Promise(7, 9, rid(1, 1), Some((rid(3, 3), 'b'))));
    // (3, 3) outranks (2, 2): 'b' is adopted
    assert_eq!(o2, vec![Outbound::Broadcast(PaxosMsg::Accept(7, 9, rid(1, 1), 'b'))]);
}

#[test]
fn accept_is_issued_only_once_per_ballot() {
    let actor = actor3();
    let mut s = actor.on_start(1);
    actor.propose(&mut s, 9, 7, 'w');
    actor.on_msg(&mut s, 2, PaxosMsg::Promise(7, 9, rid(1, 1), None));
    let o2 = actor.on_msg(&mut s, 3, PaxosMsg::Promise(7, 9, rid(1, 1), None));
    assert_eq!(o2, vec![Outbound::Broadcast(PaxosMsg::Accept(7, 9, rid(1, 1), 'w'))]);
    // the ballot's value is bound at the crossing: a late promise, even one
    // reporting an accepted pair, sends no revised Accept
    let o3 = actor.on_msg(&mut s, 1, PaxosMsg::Promise(7, 9, rid(1, 1), Some((rid(1, 3), 'v'))));
    assert!(o3.is_empty());
}

#[test]
fn orphan_promise_is_tallied_but_sends_nothing() {
    let actor = actor3();
    let mut s = actor.on_start(1);
    // no propose was issued: a Promise for an unknown ballot is an orphan
    let o1 = actor.on_msg(&mut s, 2, PaxosMsg::Promise(7, 9, rid(1, 1), None));
    let o2 = actor.on_msg(&mut s, 3, PaxosMsg::Promise(7, 9, rid(1, 1), None));
    assert!(o1.is_empty());
    assert!(o2.is_empty());
    assert!(!s.decided);
}

#[test]
fn redelivered_promise_changes_nothing() {
    let actor = actor3();
    let mut s = actor.on_start(1);
    actor.propose(&mut s, 9, 7, 'x');
    actor.on_msg(&mut s, 2, PaxosMsg::Promise(7, 9, rid(1, 1), None));
    let snap = s.clone();
    let out = actor.on_msg(&mut s, 2, PaxosMsg::Promise(7, 9, rid(1, 1), None));
    assert_eq!(s, snap);
    assert!(out.is_empty());
}

#[test]
fn redelivered_accepted_changes_nothing() {
    let actor = actor3();
    let mut s = actor.on_start(1);
    actor.on_msg(&mut s, 2, PaxosMsg::Accepted(7, 9, rid(1, 2), 'y'));
    let snap = s.clone();
    let out = actor.on_msg(&mut s, 2, PaxosMsg::Accepted(7, 9, rid(1, 2), 'y'));
    assert_eq!(s, snap);
    assert!(out.is_empty());
}

#[test]
fn nack_abandons_the_ballot() {
    let actor = actor3();
    let mut s = actor.on_start(1);
    actor.propose(&mut s, 9, 7, 'x');
    let out = actor.on_msg(&mut s, 2, PaxosMsg::Nack(7, 9, rid(1, 1)));
    assert!(out.is_empty());
    // stale promises for the abandoned ballot can no longer trigger an Accept
    let o1 = actor.on_msg(&mut s, 2, PaxosMsg::Promise(7, 9, rid(1, 1), None));
    let o2 = actor.on_msg(&mut s, 3, PaxosMsg::Promise(7, 9, rid(1, 1), None));
    assert!(o1.is_empty());
    assert!(o2.is_empty());
}

#[test]
fn decided_node_ignores_everything() {
    let actor = actor3();
    let mut s = actor.on_start(2);
    // reach a decision via a majority of Accepted messages
    actor.on_msg(&mut s, 1, PaxosMsg::Accepted(7, 9, rid(1, 1), 'x'));
    let out = actor.on_msg(&mut s, 3, PaxosMsg::Accepted(7, 9, rid(1, 1), 'x'));
    assert!(out.is_empty());
    assert!(s.decided);
    assert_eq!(s.value, Some('x'));
    let snap = s.clone();
    assert!(actor.on_msg(&mut s, 1, PaxosMsg::Prepare(8, 9, rid(5, 1))).is_empty());
    assert!(actor.on_msg(&mut s, 1, PaxosMsg::Promise(8, 9, rid(5, 1), None)).is_empty());
    assert!(actor.on_msg(&mut s, 1, PaxosMsg::Accept(8, 9, rid(5, 1), 'z')).is_empty());
    assert!(actor.on_msg(&mut s, 1, PaxosMsg::Accepted(8, 9, rid(5, 1), 'z')).is_empty());
    assert!(actor.on_msg(&mut s, 1, PaxosMsg::Nack(8, 9, rid(5, 1))).is_empty());
    assert_eq!(s, snap);
    assert_eq!(s.value, Some('x'));
}

#[test]
fn happy_path_all_nodes_decide_the_proposed_value() {
    let actor = actor3();
    let mut states = vec![actor.on_start(1), actor.on_start(2), actor.on_start(3)];
    let mut queue: Vec<(u64, u64, PaxosMsg)> = Vec::new();
    let mut replies: Vec<(u64, u64, char)> = Vec::new();
    let out = actor.propose(&mut states[0], 99, 7, 'x');
    enqueue(&actor, &mut queue, 1, out);
    pump(&actor, &mut states, &mut queue, &mut replies, &[]);
    for s in &states {
        assert!(s.decided);
        assert_eq!(s.value, Some('x'));
    }
    // exactly one reply reaches the requester, from the proposing node
    assert_eq!(replies, vec![(99, 7, 'x')]);
}

#[test]
fn competing_proposers_decide_exactly_one_value() {
    let actor = actor3();
    let mut states = vec![actor.on_start(1), actor.on_start(2), actor.on_start(3)];
    let mut queue: Vec<(u64, u64, PaxosMsg)> = Vec::new();
    let mut replies: Vec<(u64, u64, char)> = Vec::new();
    // both proposers mint a round-1 ballot; the tie breaks on the node id
    let o1 = actor.propose(&mut states[0], 91, 1, 'x');
    let o2 = actor.propose(&mut states[1], 92, 2, 'y');
    enqueue(&actor, &mut queue, 1, o1);
    enqueue(&actor, &mut queue, 2, o2);
    pump(&actor, &mut states, &mut queue, &mut replies, &[]);
    // every node that decided agrees on one value, and both never win
    let decided: Vec<char> = states.iter().filter(|s| s.decided).map(|s| s.value.unwrap()).collect();
    assert!(!decided.is_empty());
    let winner = decided[0];
    assert!(decided.iter().all(|v| *v == winner));
    // the higher ballot (node 2's) displaces the lower: 'y' wins here
    assert_eq!(winner, 'y');
    assert!(replies.iter().all(|r| r.2 == winner));
    assert!(replies.len() <= 1);
}

#[test]
fn partitioned_node_does_not_block_the_majority() {
    let actor = actor3();
    let mut states = vec![actor.on_start(1), actor.on_start(2), actor.on_start(3)];
    let mut queue: Vec<(u64, u64, PaxosMsg)> = Vec::new();
    let mut replies: Vec<(u64, u64, char)> = Vec::new();
    let out = actor.propose(&mut states[0], 99, 7, 'x');
    enqueue(&actor, &mut queue, 1, out);
    // every message to or from node 3 is lost
    pump(&actor, &mut states, &mut queue, &mut replies, &[3]);
    assert!(states[0].decided);
    assert!(states[1].decided);
    assert_eq!(states[0].value, Some('x'));
    assert_eq!(states[1].value, Some('x'));
    // the cut-off node decides nothing, and certainly no conflicting value
    assert!(!states[2].decided);
    assert_eq!(states[2].value, None);
    assert_eq!(states[2].last_seen, None);
    assert_eq!(replies, vec![(99, 7, 'x')]);
}

#[test]
fn superseding_propose_is_keyed_by_ballot() {
    let actor = actor3();
    let mut s = actor.on_start(1);
    actor.propose(&mut s, 9, 7, 'a');
    // a second propose supersedes the first with a strictly higher ballot
    let out = actor.propose(&mut s, 9, 8, 'b');
    assert_eq!(out, vec![Outbound::Broadcast(PaxosMsg::Prepare(8, 9, rid(2, 1)))]);
    // responses are keyed by ballot: a stale promise for the superseded
    // ballot never contaminates the new attempt's tally
    let o1 = actor.on_msg(&mut s, 2, PaxosMsg::Promise(7, 9, rid(1, 1), None));
    assert!(o1.is_empty());
    let o2 = actor.on_msg(&mut s, 3, PaxosMsg::Promise(8, 9, rid(2, 1), None));
    assert!(o2.is_empty());
    let o3 = actor.on_msg(&mut s, 2, PaxosMsg::Promise(8, 9, rid(2, 1), None));
    assert_eq!(o3, vec![Outbound::Broadcast(PaxosMsg::Accept(8, 9, rid(2, 1), 'b'))]);
}

#[test]
fn fresh_state_is_empty() {
    let actor = actor3();
    let s = actor.on_start(5);
    assert_eq!(s.id, 5);
    assert_eq!(s.round, 0);
    assert!(s.prepare_data.is_empty());
    assert!(s.promises.is_empty());
    assert!(s.accepts.is_empty());
    assert_eq!(s.last_seen, None);
    assert_eq!(s.highest_accepted, None);
    assert_eq!(s.value, None);
    assert!(!s.decided);
}
