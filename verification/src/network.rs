use vstd::prelude::*;
use crate::ballot::RoundIdentifier;
use crate::msg::Outbound;
use crate::msg::PaxosMsg;
use crate::run::NodeEvent;
use crate::run::emits;
use crate::run::lemma_emitted_accept;
use crate::run::lemma_emitted_accepted;
use crate::run::lemma_step_keeps_id;
use crate::run::lemma_tally_majority_stable;
use crate::run::node_step;
use crate::run::tally_majority;
use crate::state::PaxosState;

verus! {

/// The protocol messages an output batch puts on the wire.
pub open spec fn sent_messages(out: Seq<Outbound>) -> Set<PaxosMsg> {
    Set::new(|m: PaxosMsg| emits(out, m))
}

/// One step of the whole system: node `dst` handles one event, and what it
/// sends joins the messages in flight. A delivery consumes a message that
/// is really in flight — and since the soup never shrinks, the network is
/// free to deliver the same message again, to deliver out of order, or to
/// never deliver at all: every such schedule is a sequence of these steps.
pub open spec fn sys_step(
    npeers: int,
    nodes0: Map<u64, PaxosState>,
    soup0: Set<PaxosMsg>,
    nodes1: Map<u64, PaxosState>,
    soup1: Set<PaxosMsg>,
    dst: u64,
    ev: NodeEvent,
    out: Seq<Outbound>,
) -> bool {
    &&& nodes0.contains_key(dst)
    &&& match ev {
        NodeEvent::Deliver(src, m) => soup0.contains(m),
        NodeEvent::Propose(..) => true,
    }
    &&& node_step(npeers, nodes0[dst], nodes1[dst], out, ev)
    &&& nodes1 == nodes0.insert(dst, nodes1[dst])
    &&& soup1 == soup0 + sent_messages(out)
}

/// An Accept in flight is accounted for: the ballot's own proposer issued
/// it, and that proposer's promise tally for the ballot holds a majority —
/// it held one at the moment of issue and tallies only grow.
pub open spec fn accept_traced(npeers: int, nodes: Map<u64, PaxosState>, m: PaxosMsg) -> bool {
    match m {
        PaxosMsg::Accept(corr, req, r, v) => nodes.contains_key(r.id) && tally_majority(
            npeers,
            nodes[r.id],
            r,
        ),
        _ => true,
    }
}

/// Two Accepts in flight for the same ballot are the same message.
pub open spec fn accepts_agree(m1: PaxosMsg, m2: PaxosMsg) -> bool {
    match (m1, m2) {
        (PaxosMsg::Accept(c1, q1, r1, v1), PaxosMsg::Accept(c2, q2, r2, v2)) => r1 == r2
            ==> m1 == m2,
        _ => true,
    }
}

/// An Accepted in flight echoes an Accept in flight, field for field.
pub open spec fn accepted_traced(soup: Set<PaxosMsg>, m: PaxosMsg) -> bool {
    match m {
        PaxosMsg::Accepted(corr, req, r, v) => soup.contains(PaxosMsg::Accept(corr, req, r, v)),
        _ => true,
    }
}

/// The system invariant behind per-ballot agreement: every node is
/// well-formed and keyed by its own identity, every Accept in flight is
/// accounted for, one Accept per ballot ever reaches the wire, and every
/// Accepted echoes one of them.
pub open spec fn sys_inv(npeers: int, nodes: Map<u64, PaxosState>, soup: Set<PaxosMsg>) -> bool {
    &&& forall|k: u64| nodes.contains_key(k) ==> ((#[trigger] nodes[k]).wf() && nodes[k].id == k)
    &&& forall|m: PaxosMsg| #[trigger] soup.contains(m) ==> accept_traced(npeers, nodes, m)
    &&& forall|m1: PaxosMsg, m2: PaxosMsg|
        #![trigger soup.contains(m1), soup.contains(m2)]
        soup.contains(m1) && soup.contains(m2) ==> accepts_agree(m1, m2)
    &&& forall|m: PaxosMsg| #[trigger] soup.contains(m) ==> accepted_traced(soup, m)
}

/// A fresh system — every node starting the instance empty, nothing in
/// flight — satisfies the invariant.
pub proof fn lemma_sys_inv_init(npeers: int, nodes: Map<u64, PaxosState>)
    requires
        forall|k: u64| nodes.contains_key(k) ==> (#[trigger] nodes[k]).initial(k),
    ensures
        sys_inv(npeers, nodes, Set::<PaxosMsg>::empty()),
{
    assert forall|k: u64| nodes.contains_key(k) implies (#[trigger] nodes[k]).wf()
        && nodes[k].id == k by {
        assert(nodes[k].initial(k));
    }
}

/// Every system step preserves the invariant: the value a ballot carries is
/// bound at its single Accept and never contradicted afterwards, whatever
/// the network does.
pub proof fn lemma_sys_inv_step(
    npeers: int,
    nodes0: Map<u64, PaxosState>,
    soup0: Set<PaxosMsg>,
    nodes1: Map<u64, PaxosState>,
    soup1: Set<PaxosMsg>,
    dst: u64,
    ev: NodeEvent,
    out: Seq<Outbound>,
)
    requires
        sys_step(npeers, nodes0, soup0, nodes1, soup1, dst, ev, out),
        sys_inv(npeers, nodes0, soup0),
    ensures
        sys_inv(npeers, nodes1, soup1),
{
    let pre = nodes0[dst];
    let post = nodes1[dst];
    assert forall|k: u64| nodes1.contains_key(k) implies ((#[trigger] nodes1[k]).wf()
        && nodes1[k].id == k) by {
        if k == dst {
            lemma_step_keeps_id(npeers, pre, post, out, ev);
        } else {
            assert(nodes1[k] == nodes0[k]);
        }
    }
    assert forall|m: PaxosMsg| #[trigger] soup1.contains(m) implies accept_traced(
        npeers,
        nodes1,
        m,
    ) by {
        match m {
            PaxosMsg::Accept(corr, req, r, v) => {
                if soup0.contains(m) {
                    assert(accept_traced(npeers, nodes0, m));
                    if r.id == dst {
                        lemma_tally_majority_stable(npeers, pre, post, out, ev, r);
                    } else {
                        assert(nodes1[r.id] == nodes0[r.id]);
                    }
                } else {
                    assert(emits(out, m));
                    lemma_emitted_accept(npeers, pre, post, out, ev, corr, req, r, v);
                    assert(r.id == dst);
                }
            },
            _ => {
            },
        }
    }
    assert forall|m1: PaxosMsg, m2: PaxosMsg|
        soup1.contains(m1) && soup1.contains(m2) implies accepts_agree(m1, m2) by {
        match (m1, m2) {
            (PaxosMsg::Accept(c1, q1, r1, v1), PaxosMsg::Accept(c2, q2, r2, v2)) => {
                if r1 == r2 {
                    if soup0.contains(m1) && soup0.contains(m2) {
                        assert(accepts_agree(m1, m2));
                    } else if soup0.contains(m1) && !soup0.contains(m2) {
                        assert(accept_traced(npeers, nodes0, m1));
                        assert(emits(out, m2));
                        lemma_emitted_accept(npeers, pre, post, out, ev, c2, q2, r2, v2);
                        assert(r2.id == dst);
                        assert(false);
                    } else if !soup0.contains(m1) && soup0.contains(m2) {
                        assert(accept_traced(npeers, nodes0, m2));
                        assert(emits(out, m1));
                        lemma_emitted_accept(npeers, pre, post, out, ev, c1, q1, r1, v1);
                        assert(r1.id == dst);
                        assert(false);
                    } else {
                        assert(emits(out, m1));
                        assert(emits(out, m2));
                        lemma_emitted_accept(npeers, pre, post, out, ev, c1, q1, r1, v1);
                        lemma_emitted_accept(npeers, pre, post, out, ev, c2, q2, r2, v2);
                    }
                }
            },
            _ => {
            },
        }
    }
    assert forall|m: PaxosMsg| #[trigger] soup1.contains(m) implies accepted_traced(soup1, m) by {
        match m {
            PaxosMsg::Accepted(corr, req, r, v) => {
                if soup0.contains(m) {
                    assert(accepted_traced(soup0, m));
                    assert(soup1.contains(PaxosMsg::Accept(corr, req, r, v)));
                } else {
                    assert(emits(out, m));
                    lemma_emitted_accepted(npeers, pre, post, out, ev, corr, req, r, v);
                    let src = choose|src: u64|
                        ev == NodeEvent::Deliver(src, PaxosMsg::Accept(corr, req, r, v));
                    assert(soup0.contains(PaxosMsg::Accept(corr, req, r, v)));
                    assert(soup1.contains(PaxosMsg::Accept(corr, req, r, v)));
                }
            },
            _ => {
            },
        }
    }
}

/// Per-ballot agreement, system-wide: in any invariant-respecting system,
/// two Accepted votes in flight for the same ballot carry the same value,
/// whoever sent them and however the network treated them. A node that
/// tallies Accepted votes by ballot alone therefore never mixes two values
/// into one decision.
pub proof fn lemma_per_ballot_agreement(
    npeers: int,
    nodes: Map<u64, PaxosState>,
    soup: Set<PaxosMsg>,
    c1: u64,
    q1: u64,
    c2: u64,
    q2: u64,
    r: RoundIdentifier,
    v1: char,
    v2: char,
)
    requires
        sys_inv(npeers, nodes, soup),
        soup.contains(PaxosMsg::Accepted(c1, q1, r, v1)),
        soup.contains(PaxosMsg::Accepted(c2, q2, r, v2)),
    ensures
        v1 == v2,
{
    assert(accepted_traced(soup, PaxosMsg::Accepted(c1, q1, r, v1)));
    assert(accepted_traced(soup, PaxosMsg::Accepted(c2, q2, r, v2)));
    assert(accepts_agree(
        PaxosMsg::Accept(c1, q1, r, v1),
        PaxosMsg::Accept(c2, q2, r, v2),
    ));
}

} // verus!
