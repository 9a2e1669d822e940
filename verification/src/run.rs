use vstd::prelude::*;
use crate::ballot::RoundIdentifier;
use crate::msg::Outbound;
use crate::msg::PaxosMsg;
use crate::node::accept_post;
use crate::node::accepted_post;
use crate::node::add_voter;
use crate::node::nack_post;
use crate::node::prepare_post;
use crate::node::promise_post;
use crate::node::propose_post;
use crate::node::tally_voters;
use crate::quorum::is_majority_spec;
use crate::records::lookup;
use crate::state::PaxosState;

verus! {

/// One event a node can experience: a protocol message delivered by the
/// substrate, or a local client write request.
pub enum NodeEvent {
    /// Deliver(sender, message).
    Deliver(u64, PaxosMsg),
    /// Propose(requester, correlation, value).
    Propose(u64, u64, char),
}

/// The step relation of a single node: an event takes `pre` to `post`
/// emitting `out`, exactly as the contract of the handler the event
/// dispatches to says — its transition predicate, and well-formedness of
/// the state it leaves behind.
pub open spec fn node_step(
    npeers: int,
    pre: PaxosState,
    post: PaxosState,
    out: Seq<Outbound>,
    ev: NodeEvent,
) -> bool {
    &&& post.wf()
    &&& match ev {
        NodeEvent::Deliver(src, msg) => match msg {
            PaxosMsg::Prepare(corr, req, rid) => prepare_post(pre, post, out, src, corr, req, rid),
            PaxosMsg::Promise(corr, req, rid, acc) => promise_post(
                npeers,
                pre,
                post,
                out,
                src,
                corr,
                req,
                rid,
                acc,
            ),
            PaxosMsg::Accept(corr, req, rid, v) => accept_post(pre, post, out, corr, req, rid, v),
            PaxosMsg::Accepted(corr, req, rid, v) => accepted_post(
                npeers,
                pre,
                post,
                out,
                src,
                corr,
                req,
                rid,
                v,
            ),
            PaxosMsg::Nack(corr, req, rid) => nack_post(pre, post, out, corr, req, rid),
        },
        NodeEvent::Propose(req, corr, value) => propose_post(pre, post, out, req, corr, value),
    }
}

/// The message an outbound action puts on the wire, if any: what a unicast
/// or broadcast carries; a client reply carries no protocol message.
pub open spec fn payload(ob: Outbound) -> Option<PaxosMsg> {
    match ob {
        Outbound::Send(dst, m) => Some(m),
        Outbound::Broadcast(m) => Some(m),
        Outbound::Decided(..) => None,
    }
}

/// Does this output batch put message `m` on the wire?
pub open spec fn emits(out: Seq<Outbound>, m: PaxosMsg) -> bool {
    exists|j: int| 0 <= j < out.len() && payload(#[trigger] out[j]) == Some(m)
}

/// A run of one node: `states[0]` steps through every event in order,
/// `states[i]` to `states[i + 1]` emitting `outs[i]`. The events are
/// arbitrary: any interleaving, duplication, reordering or loss the
/// substrate produces is some run.
pub open spec fn is_run(
    npeers: int,
    states: Seq<PaxosState>,
    events: Seq<NodeEvent>,
    outs: Seq<Seq<Outbound>>,
) -> bool {
    &&& states.len() == events.len() + 1
    &&& outs.len() == events.len()
    &&& forall|i: int| 0 <= i < events.len()
        ==> node_step(npeers, states[i], states[i + 1], outs[i], #[trigger] events[i])
}

/// Is this outbound action the broadcast of an Accept for ballot `rid`?
pub open spec fn is_accept_for(ob: Outbound, rid: RoundIdentifier) -> bool {
    match ob {
        Outbound::Broadcast(m) => match m {
            PaxosMsg::Accept(corr, req, r, v) => r == rid,
            _ => false,
        },
        _ => false,
    }
}

/// Does this output batch carry an Accept for ballot `rid`?
pub open spec fn sends_accept_for(out: Seq<Outbound>, rid: RoundIdentifier) -> bool {
    exists|j: int| 0 <= j < out.len() && is_accept_for(#[trigger] out[j], rid)
}

/// The promise tally this state holds for `rid` is a majority.
pub open spec fn tally_majority(npeers: int, s: PaxosState, rid: RoundIdentifier) -> bool {
    is_majority_spec(tally_voters(lookup(s.promises@, rid)).len() as int, npeers)
}

/// No step ever shrinks a ballot's promise tally below a majority: promise
/// records grow monotonically and nothing else touches them.
pub proof fn lemma_tally_majority_stable(
    npeers: int,
    pre: PaxosState,
    post: PaxosState,
    out: Seq<Outbound>,
    ev: NodeEvent,
    rid: RoundIdentifier,
)
    requires
        node_step(npeers, pre, post, out, ev),
        tally_majority(npeers, pre, rid),
    ensures
        tally_majority(npeers, post, rid),
{
    match ev {
        NodeEvent::Deliver(src, msg) => match msg {
            PaxosMsg::Promise(corr, req, b, acc) => {
                if !pre.decided && b == rid {
                    let vs0 = tally_voters(lookup(pre.promises@, rid));
                    let vs = add_voter(vs0, src);
                    assert(vs.len() >= vs0.len());
                }
            },
            _ => {
            },
        },
        NodeEvent::Propose(..) => {
        },
    }
}

/// A step that emits an Accept for `rid` is the delivery of a Promise for
/// `rid` whose tally crosses the majority line at that very step: short of
/// one before, holding one after.
pub proof fn lemma_accept_implies_crossing(
    npeers: int,
    pre: PaxosState,
    post: PaxosState,
    out: Seq<Outbound>,
    ev: NodeEvent,
    rid: RoundIdentifier,
)
    requires
        node_step(npeers, pre, post, out, ev),
        sends_accept_for(out, rid),
    ensures
        !tally_majority(npeers, pre, rid),
        tally_majority(npeers, post, rid),
{
    let j = choose|j: int| 0 <= j < out.len() && is_accept_for(out[j], rid);
    match ev {
        NodeEvent::Deliver(src, msg) => match msg {
            PaxosMsg::Promise(corr, req, b, acc) => {
                assert(!pre.decided);
                assert(b == rid);
            },
            _ => {
            },
        },
        NodeEvent::Propose(..) => {
        },
    }
}

/// Any Accept a step puts on the wire is broadcast by the ballot's own
/// proposer at the very step its promise tally crosses the majority line,
/// and is the only action of the batch.
pub proof fn lemma_emitted_accept(
    npeers: int,
    pre: PaxosState,
    post: PaxosState,
    out: Seq<Outbound>,
    ev: NodeEvent,
    corr: u64,
    req: u64,
    r: RoundIdentifier,
    v: char,
)
    requires
        node_step(npeers, pre, post, out, ev),
        pre.wf(),
        emits(out, PaxosMsg::Accept(corr, req, r, v)),
    ensures
        r.id == pre.id,
        !pre.decided,
        !tally_majority(npeers, pre, r),
        tally_majority(npeers, post, r),
        out.len() == 1,
        out[0] == Outbound::Broadcast(PaxosMsg::Accept(corr, req, r, v)),
{
    let j = choose|j: int|
        0 <= j < out.len() && payload(out[j]) == Some(PaxosMsg::Accept(corr, req, r, v));
    match ev {
        NodeEvent::Deliver(src, msg) => match msg {
            PaxosMsg::Promise(c2, q2, b, acc) => {
                assert(!pre.decided);
                assert(b == r);
                match lookup(pre.prepare_data@, r) {
                    Some(own) => {
                        let i = choose|i: int|
                            0 <= i < pre.prepare_data@.len() && pre.prepare_data@[i].0 == r;
                        assert(pre.prepare_data@[i].0.id == pre.id);
                    },
                    None => {
                        assert(false);
                    },
                }
            },
            _ => {
            },
        },
        NodeEvent::Propose(..) => {
        },
    }
}

/// No step changes a node's identity.
pub proof fn lemma_step_keeps_id(
    npeers: int,
    pre: PaxosState,
    post: PaxosState,
    out: Seq<Outbound>,
    ev: NodeEvent,
)
    requires
        node_step(npeers, pre, post, out, ev),
    ensures
        post.id == pre.id,
{
}

/// Any Accepted a step puts on the wire is an acceptor's echo of an Accept
/// delivered at that step, carrying that Accept's fields unchanged.
pub proof fn lemma_emitted_accepted(
    npeers: int,
    pre: PaxosState,
    post: PaxosState,
    out: Seq<Outbound>,
    ev: NodeEvent,
    corr: u64,
    req: u64,
    r: RoundIdentifier,
    v: char,
)
    requires
        node_step(npeers, pre, post, out, ev),
        emits(out, PaxosMsg::Accepted(corr, req, r, v)),
    ensures
        exists|src: u64| ev == NodeEvent::Deliver(src, PaxosMsg::Accept(corr, req, r, v)),
{
    let j = choose|j: int|
        0 <= j < out.len() && payload(out[j]) == Some(PaxosMsg::Accepted(corr, req, r, v));
    match ev {
        NodeEvent::Deliver(src, msg) => match msg {
            PaxosMsg::Accept(c2, q2, b, v2) => {
                assert(ev == NodeEvent::Deliver(src, PaxosMsg::Accept(corr, req, r, v)));
            },
            _ => {
            },
        },
        NodeEvent::Propose(..) => {
        },
    }
}

/// Once a ballot's promise tally holds a majority, it holds one at every
/// later point of the run.
pub proof fn lemma_majority_persists(
    npeers: int,
    states: Seq<PaxosState>,
    events: Seq<NodeEvent>,
    outs: Seq<Seq<Outbound>>,
    rid: RoundIdentifier,
    m: int,
    k: int,
)
    requires
        is_run(npeers, states, events, outs),
        0 <= m <= k < states.len(),
        tally_majority(npeers, states[m], rid),
    ensures
        tally_majority(npeers, states[k], rid),
    decreases k - m,
{
    if m < k {
        lemma_tally_majority_stable(npeers, states[m], states[m + 1], outs[m], events[m], rid);
        lemma_majority_persists(npeers, states, events, outs, rid, m + 1, k);
    }
}

/// One ballot, one value: in any run of a node, at most one step broadcasts
/// an Accept for a given ballot. The value a ballot carries into its Accept
/// is therefore bound at the moment its promise quorum completes and is
/// never revised, however messages are later duplicated, reordered or lost
/// — so tallying Accepted messages by ballot alone cannot mix two values.
pub proof fn lemma_one_accept_per_ballot(
    npeers: int,
    states: Seq<PaxosState>,
    events: Seq<NodeEvent>,
    outs: Seq<Seq<Outbound>>,
    rid: RoundIdentifier,
    i: int,
    k: int,
)
    requires
        is_run(npeers, states, events, outs),
        0 <= i < k < events.len(),
        sends_accept_for(outs[i], rid),
    ensures
        !sends_accept_for(outs[k], rid),
{
    lemma_accept_implies_crossing(npeers, states[i], states[i + 1], outs[i], events[i], rid);
    lemma_majority_persists(npeers, states, events, outs, rid, i + 1, k);
    if sends_accept_for(outs[k], rid) {
        lemma_accept_implies_crossing(npeers, states[k], states[k + 1], outs[k], events[k], rid);
    }
}

} // verus!
