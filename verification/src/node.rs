use vstd::prelude::*;
use crate::ballot::RoundIdentifier;
use crate::msg::Outbound;
use crate::msg::PaxosMsg;
use crate::quorum::is_majority;
use crate::quorum::is_majority_spec;
use crate::records::contains_id;
use crate::records::find_entry;
use crate::records::lemma_lookup_at;
use crate::records::lemma_lookup_push;
use crate::records::lemma_lookup_remove;
use crate::records::lemma_lookup_update;
use crate::records::lookup;
use crate::state::PaxosState;
use crate::state::PromiseTally;

verus! {

/// The voters of a promise tally, the empty sequence when there is none.
pub open spec fn tally_voters(t: Option<PromiseTally>) -> Seq<u64> {
    match t {
        Some(t) => t.voters@,
        None => Seq::<u64>::empty(),
    }
}

/// The best reported accepted pair of a promise tally, if any.
pub open spec fn tally_best(t: Option<PromiseTally>) -> Option<(RoundIdentifier, char)> {
    match t {
        Some(t) => t.best,
        None => None,
    }
}

/// The voters of an accept tally, the empty sequence when there is none.
pub open spec fn votes_of(t: Option<Vec<u64>>) -> Seq<u64> {
    match t {
        Some(v) => v@,
        None => Seq::<u64>::empty(),
    }
}

/// Add a voter to a tally: a voter already counted is not counted twice.
pub open spec fn add_voter(vs: Seq<u64>, src: u64) -> Seq<u64> {
    if vs.contains(src) {
        vs
    } else {
        vs.push(src)
    }
}

/// Merge one reported accepted pair into the best seen so far: the pair with
/// the strictly higher ballot wins, and an absent report changes nothing.
pub open spec fn merge_best(
    cur: Option<(RoundIdentifier, char)>,
    rep: Option<(RoundIdentifier, char)>,
) -> Option<(RoundIdentifier, char)> {
    match rep {
        None => cur,
        Some(r) => match cur {
            None => Some(r),
            Some(c) => if c.0.lt_spec(r.0) {
                Some(r)
            } else {
                Some(c)
            },
        },
    }
}

/// The value a proposer must carry into its Accept: the value of the highest
/// reported accepted pair if any promise reported one, else its own pending
/// value. Adopting the reported value is the rule that keeps a new ballot
/// from overwriting a value a quorum may already have accepted.
pub open spec fn adopted_value(best: Option<(RoundIdentifier, char)>, own: char) -> char {
    match best {
        Some(b) => b.1,
        None => own,
    }
}

/// An acceptor grants a Prepare exactly when the ballot is strictly above
/// everything it has promised so far.
pub open spec fn grants_promise(pre: PaxosState, rid: RoundIdentifier) -> bool {
    match pre.last_seen {
        None => true,
        Some(l) => l.lt_spec(rid),
    }
}

/// What handling Prepare(corr, req, rid) from `src` does. A decided node
/// ignores it; otherwise a strictly higher ballot is promised (reporting the
/// latest accepted pair) and anything else is answered with a Nack, the
/// promise moving `last_seen` monotonically upward only.
pub open spec fn prepare_post(
    pre: PaxosState,
    post: PaxosState,
    out: Seq<Outbound>,
    src: u64,
    corr: u64,
    req: u64,
    rid: RoundIdentifier,
) -> bool {
    if pre.decided {
        PaxosState::state_eq(post, pre) && out.len() == 0
    } else if grants_promise(pre, rid) {
        &&& PaxosState::state_eq(post, PaxosState { last_seen: Some(rid), ..pre })
        &&& out.len() == 1
        &&& out[0] == Outbound::Send(src, PaxosMsg::Promise(corr, req, rid, pre.highest_accepted))
    } else {
        &&& PaxosState::state_eq(post, pre)
        &&& out.len() == 1
        &&& out[0] == Outbound::Send(src, PaxosMsg::Nack(corr, req, rid))
    }
}

/// What handling Promise(corr, req, rid, acc) from `src` does. A decided
/// node ignores it. Otherwise `src` joins rid's promise tally (at most once)
/// and the reported accepted pair is merged into the tally's best; every
/// other tally and every other field is untouched. If this node has no
/// pending value for rid the response is orphaned and nothing is sent; if it
/// has one and the tally first crosses the majority line, it broadcasts
/// Accept carrying the adopted value. The crossing happens at most once, so
/// one ballot only ever carries one value into its Accept; a redelivered
/// promise that adds nothing leaves the state exactly as it was.
pub open spec fn promise_post(
    npeers: int,
    pre: PaxosState,
    post: PaxosState,
    out: Seq<Outbound>,
    src: u64,
    corr: u64,
    req: u64,
    rid: RoundIdentifier,
    acc: Option<(RoundIdentifier, char)>,
) -> bool {
    if pre.decided {
        PaxosState::state_eq(post, pre) && out.len() == 0
    } else {
        let vs = add_voter(tally_voters(lookup(pre.promises@, rid)), src);
        let nb = merge_best(tally_best(lookup(pre.promises@, rid)), acc);
        &&& PaxosState::unchanged_but_promises(pre, post)
        &&& post.value == pre.value
        &&& post.decided == pre.decided
        &&& lookup(post.promises@, rid) is Some
        &&& tally_voters(lookup(post.promises@, rid)) == vs
        &&& tally_best(lookup(post.promises@, rid)) == nb
        &&& forall|b: RoundIdentifier| b != rid
            ==> lookup(post.promises@, b) == lookup(pre.promises@, b)
        &&& (vs == tally_voters(lookup(pre.promises@, rid))
            && nb == tally_best(lookup(pre.promises@, rid))
            && lookup(pre.promises@, rid) is Some
            ==> PaxosState::state_eq(post, pre))
        &&& match lookup(pre.prepare_data@, rid) {
            None => out.len() == 0,
            Some(own) => if is_majority_spec(vs.len() as int, npeers) && !is_majority_spec(
                tally_voters(lookup(pre.promises@, rid)).len() as int,
                npeers,
            ) {
                out.len() == 1 && out[0] == Outbound::Broadcast(
                    PaxosMsg::Accept(corr, req, rid, adopted_value(nb, own)),
                )
            } else {
                out.len() == 0
            },
        }
    }
}

/// What handling Accept(corr, req, rid, v) does. A decided node ignores it.
/// An undecided one accepts exactly when rid is the ballot it promised last
/// — never one below it — recording (rid, v) and broadcasting Accepted;
/// any other ballot is ignored.
pub open spec fn accept_post(
    pre: PaxosState,
    post: PaxosState,
    out: Seq<Outbound>,
    corr: u64,
    req: u64,
    rid: RoundIdentifier,
    v: char,
) -> bool {
    if pre.decided {
        PaxosState::state_eq(post, pre) && out.len() == 0
    } else if pre.last_seen == Some(rid) {
        &&& PaxosState::state_eq(post, PaxosState { highest_accepted: Some((rid, v)), ..pre })
        &&& out.len() == 1
        &&& out[0] == Outbound::Broadcast(PaxosMsg::Accepted(corr, req, rid, v))
    } else {
        PaxosState::state_eq(post, pre) && out.len() == 0
    }
}

/// What handling Accepted(corr, req, rid, v) from `src` does. A decided node
/// ignores it. Otherwise `src` joins rid's accept tally (at most once); on a
/// majority the node commits the decision, and reports it to the requester
/// exactly when it drove rid itself. A redelivered Accepted that adds
/// nothing leaves the tallies as they were.
pub open spec fn accepted_post(
    npeers: int,
    pre: PaxosState,
    post: PaxosState,
    out: Seq<Outbound>,
    src: u64,
    corr: u64,
    req: u64,
    rid: RoundIdentifier,
    v: char,
) -> bool {
    if pre.decided {
        PaxosState::state_eq(post, pre) && out.len() == 0
    } else {
        let vs = add_voter(votes_of(lookup(pre.accepts@, rid)), src);
        &&& post.id == pre.id
        &&& post.round == pre.round
        &&& post.prepare_data@ == pre.prepare_data@
        &&& post.promises@ == pre.promises@
        &&& post.last_seen == pre.last_seen
        &&& post.highest_accepted == pre.highest_accepted
        &&& lookup(post.accepts@, rid) is Some
        &&& votes_of(lookup(post.accepts@, rid)) == vs
        &&& forall|b: RoundIdentifier| b != rid
            ==> lookup(post.accepts@, b) == lookup(pre.accepts@, b)
        &&& (vs == votes_of(lookup(pre.accepts@, rid)) ==> post.accepts@ == pre.accepts@)
        &&& if is_majority_spec(vs.len() as int, npeers) {
            &&& post.decided
            &&& post.value == Some(v)
            &&& if lookup(pre.prepare_data@, rid) is Some {
                out.len() == 1 && out[0] == Outbound::Decided(req, corr, v)
            } else {
                out.len() == 0
            }
        } else {
            &&& post.decided == pre.decided
            &&& post.value == pre.value
            &&& out.len() == 0
        }
    }
}

/// What handling Nack(corr, req, rid) does. A decided node ignores it; an
/// undecided one abandons the rejected ballot by dropping its pending value,
/// so stale promises can no longer push rid to an Accept. Nothing else moves
/// and nothing is sent: the higher proposer is left to proceed.
pub open spec fn nack_post(
    pre: PaxosState,
    post: PaxosState,
    out: Seq<Outbound>,
    corr: u64,
    req: u64,
    rid: RoundIdentifier,
) -> bool {
    if pre.decided {
        PaxosState::state_eq(post, pre) && out.len() == 0
    } else {
        &&& post.id == pre.id
        &&& post.round == pre.round
        &&& post.promises@ == pre.promises@
        &&& post.accepts@ == pre.accepts@
        &&& post.last_seen == pre.last_seen
        &&& post.highest_accepted == pre.highest_accepted
        &&& post.value == pre.value
        &&& post.decided == pre.decided
        &&& lookup(post.prepare_data@, rid) is None
        &&& forall|b: RoundIdentifier| b != rid
            ==> lookup(post.prepare_data@, b) == lookup(pre.prepare_data@, b)
        &&& out.len() == 0
    }
}

/// What a local propose(value) does: mint the next ballot, record `value` as
/// pending for it, and broadcast Prepare. Tallies for the fresh ballot start
/// empty by construction, and every older record is untouched.
pub open spec fn propose_post(
    pre: PaxosState,
    post: PaxosState,
    out: Seq<Outbound>,
    req: u64,
    corr: u64,
    value: char,
) -> bool {
    let rid = RoundIdentifier { round_num: (pre.round + 1) as u32, id: pre.id };
    &&& post.id == pre.id
    &&& post.round == pre.round + 1
    &&& post.promises@ == pre.promises@
    &&& post.accepts@ == pre.accepts@
    &&& post.last_seen == pre.last_seen
    &&& post.highest_accepted == pre.highest_accepted
    &&& post.value == pre.value
    &&& post.decided == pre.decided
    &&& lookup(post.prepare_data@, rid) == Some(value)
    &&& forall|b: RoundIdentifier| b != rid
        ==> lookup(post.prepare_data@, b) == lookup(pre.prepare_data@, b)
    &&& out.len() == 1
    &&& out[0] == Outbound::Broadcast(PaxosMsg::Prepare(corr, req, rid))
}

/// One Paxos participant: the fixed peer set it shares the instance with,
/// the node itself included. Every handler is a pure step from a node state
/// and one event to the new state and the outbound messages.
pub struct PaxosActor {
    pub peers: Vec<u64>,
}

impl PaxosActor {
    /// The fixed participant count majorities are measured against.
    pub open spec fn peer_count(self) -> int {
        self.peers@.len() as int
    }

    /// The state a node starts an instance with.
    pub fn on_start(&self, id: u64) -> (s: PaxosState)
        ensures
            s.initial(id),
            s.wf(),
    {
        PaxosState {
            id,
            round: 0,
            prepare_data: Vec::new(),
            promises: Vec::new(),
            accepts: Vec::new(),
            last_seen: None,
            highest_accepted: None,
            value: None,
            decided: false,
        }
    }

    /// Client-facing write: contend for this instance with `value`. Mints a
    /// fresh strictly-increasing ballot and broadcasts Prepare for it; the
    /// decision, if one is ever reached, is routed back through `req` and
    /// `corr`.
    pub fn propose(&self, state: &mut PaxosState, req: u64, corr: u64, value: char) -> (out: Vec<
        Outbound,
    >)
        requires
            old(state).wf(),
            old(state).round < u32::MAX,
        ensures
            final(state).wf(),
            propose_post(*old(state), *final(state), out@, req, corr, value),
    {
        let ghost pre = *state;
        let rid = state.next_round();
        proof {
            PaxosState::lemma_fresh_ballot_unrecorded(
                state.prepare_data@,
                state.id,
                pre.round,
                rid,
            );
            assert forall|b: RoundIdentifier| b != rid implies lookup(
                state.prepare_data@.push((rid, value)),
                b,
            ) == lookup(state.prepare_data@, b) by {
                lemma_lookup_push(state.prepare_data@, rid, value, b);
            }
            lemma_lookup_push(state.prepare_data@, rid, value, rid);
        }
        state.prepare_data.push((rid, value));
        let mut out: Vec<Outbound> = Vec::new();
        out.push(Outbound::Broadcast(PaxosMsg::Prepare(corr, req, rid)));
        out
    }

    /// Acceptor half, Prepare: promise a strictly higher ballot, Nack
    /// anything else; `last_seen` only ever moves upward.
    pub fn on_prepare(&self, state: &mut PaxosState, src: u64, corr: u64, req: u64, rid: RoundIdentifier) -> (out: Vec<Outbound>)
        requires
            old(state).wf(),
        ensures
            final(state).wf(),
            prepare_post(*old(state), *final(state), out@, src, corr, req, rid),
    {
        let mut out: Vec<Outbound> = Vec::new();
        if state.decided {
            return out;
        }
        let greater = match state.last_seen {
            Some(val) => val < rid,
            None => true,
        };
        if greater {
            out.push(Outbound::Send(src, PaxosMsg::Promise(corr, req, rid, state.highest_accepted)));
            state.last_seen = Some(rid);
        } else {
            out.push(Outbound::Send(src, PaxosMsg::Nack(corr, req, rid)));
        }
        out
    }

    /// Proposer half, Promise: tally the promise under its ballot, adopt the
    /// highest reported accepted value, and on majority broadcast Accept for
    /// the pending proposal.
    pub fn on_promise(
        &self,
        state: &mut PaxosState,
        src: u64,
        corr: u64,
        req: u64,
        rid: RoundIdentifier,
        acc: Option<(RoundIdentifier, char)>,
    ) -> (out: Vec<Outbound>)
        requires
            old(state).wf(),
        ensures
            final(state).wf(),
            promise_post(
                self.peer_count(),
                *old(state),
                *final(state),
                out@,
                src,
                corr,
                req,
                rid,
                acc,
            ),
    {
        let mut out: Vec<Outbound> = Vec::new();
        if state.decided {
            return out;
        }
        let ghost pre = *state;
        let idx = find_entry(&state.promises, &rid);
        let count: usize;
        let prior_count: usize;
        let new_best: Option<(RoundIdentifier, char)>;
        match idx {
            Some(i) => {
                prior_count = state.promises[i].1.voters.len();
                let has_voter = contains_id(&state.promises[i].1.voters, src);
                let (merged, best_changed) = merge_best_exec(state.promises[i].1.best, acc);
                new_best = merged;
                if !has_voter {
                    state.promises[i].1.voters.push(src);
                }
                let ghost s1 = state.promises@;
                if best_changed {
                    state.promises[i].1.best = merged;
                }
                count = state.promises[i].1.voters.len();
                proof {
                    let s0 = pre.promises@;
                    let s2 = state.promises@;
                    assert(s1 =~= s0.update(i as int, (s0[i as int].0, s1[i as int].1)));
                    assert forall|b: RoundIdentifier| b != rid implies lookup(s2, b) == lookup(
                        s0,
                        b,
                    ) by {
                        lemma_lookup_update(s0, i as int, s1[i as int].1, b);
                        if best_changed {
                            lemma_lookup_update(s1, i as int, s2[i as int].1, b);
                            assert(s2 =~= s1.update(i as int, (s1[i as int].0, s2[i as int].1)));
                        } else {
                            assert(s2 =~= s1);
                        }
                    }
                    if !best_changed {
                        assert(s2 =~= s1);
                    } else {
                        assert(s2 =~= s1.update(i as int, (s1[i as int].0, s2[i as int].1)));
                        lemma_lookup_update(s1, i as int, s2[i as int].1, rid);
                    }
                    lemma_lookup_update(s0, i as int, s1[i as int].1, rid);
                    lemma_lookup_at(s0, rid, i as int);
                    lemma_lookup_at(s2, rid, i as int);
                    if !has_voter {
                        assert(s2[i as int].1.voters@ == s0[i as int].1.voters@.push(src));
                    }
                    if has_voter && !best_changed {
                        assert(s2 =~= s0);
                        assert(state.promises@ == pre.promises@);
                    }
                }
            }
            None => {
                let mut voters: Vec<u64> = Vec::new();
                voters.push(src);
                let (merged, _) = merge_best_exec(None, acc);
                new_best = merged;
                count = 1;
                prior_count = 0;
                let ghost tally = PromiseTally { voters, best: merged };
                state.promises.push((rid, PromiseTally { voters, best: merged }));
                proof {
                    let s0 = pre.promises@;
                    let s2 = state.promises@;
                    assert(s2 =~= s0.push((rid, tally)));
                    assert forall|b: RoundIdentifier| b != rid implies lookup(s2, b) == lookup(
                        s0,
                        b,
                    ) by {
                        lemma_lookup_push(s0, rid, tally, b);
                    }
                    lemma_lookup_push(s0, rid, tally, rid);
                    assert(tally_voters(lookup(s2, rid)) =~= seq![src]);
                    assert(add_voter(tally_voters(lookup(s0, rid)), src) =~= seq![src]);
                }
            }
        }
        let pending = find_entry(&state.prepare_data, &rid);
        match pending {
            None => out,
            Some(pi) => {
                let own = state.prepare_data[pi].1;
                if is_majority(count, self.peers.len()) && !is_majority(
                    prior_count,
                    self.peers.len(),
                ) {
                    let v = match new_best {
                        Some(p) => p.1,
                        None => own,
                    };
                    out.push(Outbound::Broadcast(PaxosMsg::Accept(corr, req, rid, v)));
                }
                out
            }
        }
    }

    /// Acceptor half, Accept: accept the value exactly at the ballot last
    /// promised, recording it and broadcasting Accepted; any stale ballot is
    /// ignored.
    pub fn on_accept(&self, state: &mut PaxosState, corr: u64, req: u64, rid: RoundIdentifier, v: char) -> (out: Vec<Outbound>)
        requires
            old(state).wf(),
        ensures
            final(state).wf(),
            accept_post(*old(state), *final(state), out@, corr, req, rid, v),
    {
        let mut out: Vec<Outbound> = Vec::new();
        if state.decided {
            return out;
        }
        let matches_promise = match state.last_seen {
            Some(l) => l == rid,
            None => false,
        };
        if matches_promise {
            state.highest_accepted = Some((rid, v));
            out.push(Outbound::Broadcast(PaxosMsg::Accepted(corr, req, rid, v)));
        }
        out
    }

    /// Proposer half, Accepted: tally the acceptance under its ballot; on
    /// majority commit the decision, and answer the requester exactly when
    /// this node drove the ballot itself.
    pub fn on_accepted(
        &self,
        state: &mut PaxosState,
        src: u64,
        corr: u64,
        req: u64,
        rid: RoundIdentifier,
        v: char,
    ) -> (out: Vec<Outbound>)
        requires
            old(state).wf(),
        ensures
            final(state).wf(),
            accepted_post(
                self.peer_count(),
                *old(state),
                *final(state),
                out@,
                src,
                corr,
                req,
                rid,
                v,
            ),
    {
        let mut out: Vec<Outbound> = Vec::new();
        if state.decided {
            return out;
        }
        let ghost pre = *state;
        let idx = find_entry(&state.accepts, &rid);
        let count: usize;
        match idx {
            Some(i) => {
                let has_voter = contains_id(&state.accepts[i].1, src);
                if !has_voter {
                    state.accepts[i].1.push(src);
                }
                count = state.accepts[i].1.len();
                proof {
                    let s0 = pre.accepts@;
                    let s2 = state.accepts@;
                    assert(s2 =~= s0.update(i as int, (s0[i as int].0, s2[i as int].1)));
                    assert forall|b: RoundIdentifier| b != rid implies lookup(s2, b) == lookup(
                        s0,
                        b,
                    ) by {
                        lemma_lookup_update(s0, i as int, s2[i as int].1, b);
                    }
                    lemma_lookup_update(s0, i as int, s2[i as int].1, rid);
                    lemma_lookup_at(s0, rid, i as int);
                    lemma_lookup_at(s2, rid, i as int);
                    if has_voter {
                        assert(s2 =~= s0);
                        assert(state.accepts@ == pre.accepts@);
                    }
                }
            }
            None => {
                let mut voters: Vec<u64> = Vec::new();
                voters.push(src);
                count = 1;
                let ghost vg = voters;
                state.accepts.push((rid, voters));
                proof {
                    let s0 = pre.accepts@;
                    let s2 = state.accepts@;
                    assert(s2 =~= s0.push((rid, vg)));
                    assert forall|b: RoundIdentifier| b != rid implies lookup(s2, b) == lookup(
                        s0,
                        b,
                    ) by {
                        lemma_lookup_push(s0, rid, vg, b);
                    }
                    lemma_lookup_push(s0, rid, vg, rid);
                    assert(votes_of(lookup(s2, rid)) =~= seq![src]);
                    assert(add_voter(votes_of(lookup(s0, rid)), src) =~= seq![src]);
                }
            }
        }
        if is_majority(count, self.peers.len()) {
            state.value = Some(v);
            state.decided = true;
            let pend = find_entry(&state.prepare_data, &rid);
            if pend.is_some() {
                out.push(Outbound::Decided(req, corr, v));
            }
        }
        out
    }

    /// Proposer half, Nack: abandon the rejected ballot silently.
    pub fn on_nack(&self, state: &mut PaxosState, corr: u64, req: u64, rid: RoundIdentifier) -> (out: Vec<Outbound>)
        requires
            old(state).wf(),
        ensures
            final(state).wf(),
            nack_post(*old(state), *final(state), out@, corr, req, rid),
    {
        let out: Vec<Outbound> = Vec::new();
        if state.decided {
            return out;
        }
        let ghost pre = *state;
        let idx = find_entry(&state.prepare_data, &rid);
        match idx {
            Some(i) => {
                state.prepare_data.remove(i);
                proof {
                    let s0 = pre.prepare_data@;
                    let s2 = state.prepare_data@;
                    assert forall|b: RoundIdentifier| b != rid implies lookup(s2, b) == lookup(
                        s0,
                        b,
                    ) by {
                        lemma_lookup_remove(s0, i as int, b);
                    }
                    lemma_lookup_remove(s0, i as int, rid);
                }
            }
            None => {
            }
        }
        out
    }

    /// Single message-dispatch entry point: route each protocol message to
    /// the role that handles it. Every step is described exactly by its
    /// transition predicate.
    pub fn on_msg(&self, state: &mut PaxosState, src: u64, msg: PaxosMsg) -> (out: Vec<Outbound>)
        requires
            old(state).wf(),
        ensures
            final(state).wf(),
            match msg {
                PaxosMsg::Prepare(corr, req, rid) => prepare_post(
                    *old(state),
                    *final(state),
                    out@,
                    src,
                    corr,
                    req,
                    rid,
                ),
                PaxosMsg::Promise(corr, req, rid, acc) => promise_post(
                    self.peer_count(),
                    *old(state),
                    *final(state),
                    out@,
                    src,
                    corr,
                    req,
                    rid,
                    acc,
                ),
                PaxosMsg::Accept(corr, req, rid, v) => accept_post(
                    *old(state),
                    *final(state),
                    out@,
                    corr,
                    req,
                    rid,
                    v,
                ),
                PaxosMsg::Accepted(corr, req, rid, v) => accepted_post(
                    self.peer_count(),
                    *old(state),
                    *final(state),
                    out@,
                    src,
                    corr,
                    req,
                    rid,
                    v,
                ),
                PaxosMsg::Nack(corr, req, rid) => nack_post(
                    *old(state),
                    *final(state),
                    out@,
                    corr,
                    req,
                    rid,
                ),
            },
    {
        match msg {
            PaxosMsg::Prepare(corr, req, rid) => self.on_prepare(state, src, corr, req, rid),
            PaxosMsg::Promise(corr, req, rid, acc) => self.on_promise(
                state,
                src,
                corr,
                req,
                rid,
                acc,
            ),
            PaxosMsg::Accept(corr, req, rid, v) => self.on_accept(state, corr, req, rid, v),
            PaxosMsg::Accepted(corr, req, rid, v) => self.on_accepted(
                state,
                src,
                corr,
                req,
                rid,
                v,
            ),
            PaxosMsg::Nack(corr, req, rid) => self.on_nack(state, corr, req, rid),
        }
    }
}

/// Decisions are final: once a node has decided, every protocol message is
/// a no-op that changes nothing and sends nothing. In particular the node
/// answers a correlation id at most once, and a decided instance never
/// reopens with a different value.
pub proof fn lemma_decided_is_final(
    npeers: int,
    pre: PaxosState,
    post: PaxosState,
    out: Seq<Outbound>,
    src: u64,
    msg: PaxosMsg,
)
    requires
        pre.decided,
        match msg {
            PaxosMsg::Prepare(corr, req, rid) => prepare_post(pre, post, out, src, corr, req, rid),
            PaxosMsg::Promise(corr, req, rid, acc) => promise_post(
                npeers,
                pre,
                post,
                out,
                src,
                corr,
                req,
                rid,
                acc,
            ),
            PaxosMsg::Accept(corr, req, rid, v) => accept_post(pre, post, out, corr, req, rid, v),
            PaxosMsg::Accepted(corr, req, rid, v) => accepted_post(
                npeers,
                pre,
                post,
                out,
                src,
                corr,
                req,
                rid,
                v,
            ),
            PaxosMsg::Nack(corr, req, rid) => nack_post(pre, post, out, corr, req, rid),
        },
    ensures
        PaxosState::state_eq(post, pre),
        out.len() == 0,
{
}

/// Regression-freedom: whenever handling an Accept records a new accepted
/// pair, its ballot is exactly the one the acceptor promised last — never a
/// ballot below its current promise.
pub proof fn lemma_acceptor_regression_free(
    pre: PaxosState,
    post: PaxosState,
    out: Seq<Outbound>,
    corr: u64,
    req: u64,
    rid: RoundIdentifier,
    v: char,
)
    requires
        accept_post(pre, post, out, corr, req, rid, v),
        post.highest_accepted != pre.highest_accepted,
    ensures
        pre.last_seen == Some(rid),
        post.highest_accepted == Some((rid, v)),
{
}

/// A granted Prepare moves the promise strictly upward; a promise once made
/// never falls back to a lower ballot.
pub proof fn lemma_promise_monotonic(
    pre: PaxosState,
    post: PaxosState,
    out: Seq<Outbound>,
    src: u64,
    corr: u64,
    req: u64,
    rid: RoundIdentifier,
    l: RoundIdentifier,
)
    requires
        prepare_post(pre, post, out, src, corr, req, rid),
        pre.last_seen == Some(l),
    ensures
        post.last_seen matches Some(l2) && (l2 == l || l.lt_spec(l2)),
{
}

/// Idempotence, Promise: redelivering a promise whose sender is already
/// tallied and whose report adds nothing leaves the state exactly as it was.
pub proof fn lemma_promise_idempotent(
    npeers: int,
    pre: PaxosState,
    post: PaxosState,
    out: Seq<Outbound>,
    src: u64,
    corr: u64,
    req: u64,
    rid: RoundIdentifier,
    acc: Option<(RoundIdentifier, char)>,
)
    requires
        promise_post(npeers, pre, post, out, src, corr, req, rid, acc),
        !pre.decided,
        tally_voters(lookup(pre.promises@, rid)).contains(src),
        merge_best(tally_best(lookup(pre.promises@, rid)), acc) == tally_best(
            lookup(pre.promises@, rid),
        ),
    ensures
        PaxosState::state_eq(post, pre),
{
    assert(lookup(pre.promises@, rid) is Some);
}

/// Idempotence, Accepted: redelivering an acceptance whose sender is already
/// tallied, short of a majority, leaves the state exactly as it was and
/// sends nothing.
pub proof fn lemma_accepted_idempotent(
    npeers: int,
    pre: PaxosState,
    post: PaxosState,
    out: Seq<Outbound>,
    src: u64,
    corr: u64,
    req: u64,
    rid: RoundIdentifier,
    v: char,
)
    requires
        accepted_post(npeers, pre, post, out, src, corr, req, rid, v),
        !pre.decided,
        votes_of(lookup(pre.accepts@, rid)).contains(src),
        !is_majority_spec(votes_of(lookup(pre.accepts@, rid)).len() as int, npeers),
    ensures
        PaxosState::state_eq(post, pre),
        out.len() == 0,
{
}

/// The Accept of a ballot is issued at most once: a promise arriving when
/// the ballot's tally already holds a majority sends nothing more, so the
/// value carried into a ballot's Accept is bound at the moment the majority
/// is first reached and can never be revised by later reports. One ballot,
/// one value: the reason tallying Accepted messages by ballot alone is
/// enough for agreement.
pub proof fn lemma_accept_issued_once(
    npeers: int,
    pre: PaxosState,
    post: PaxosState,
    out: Seq<Outbound>,
    src: u64,
    corr: u64,
    req: u64,
    rid: RoundIdentifier,
    acc: Option<(RoundIdentifier, char)>,
)
    requires
        promise_post(npeers, pre, post, out, src, corr, req, rid, acc),
        !pre.decided,
        is_majority_spec(tally_voters(lookup(pre.promises@, rid)).len() as int, npeers),
    ensures
        out.len() == 0,
{
}

/// The best accepted pair adopted over a whole run of promise reports,
/// merged in delivery order.
pub open spec fn best_of(reports: Seq<Option<(RoundIdentifier, char)>>) -> Option<
    (RoundIdentifier, char),
>
    decreases reports.len(),
{
    if reports.len() == 0 {
        None
    } else {
        merge_best(best_of(reports.drop_last()), reports.last())
    }
}

/// The running best over a run of reports is itself one of the reports.
pub proof fn lemma_best_of_reported(reports: Seq<Option<(RoundIdentifier, char)>>)
    ensures
        best_of(reports) is Some ==> reports.contains(best_of(reports)),
    decreases reports.len(),
{
    if reports.len() > 0 {
        let prefix = reports.drop_last();
        lemma_best_of_reported(prefix);
        if best_of(reports) is Some {
            if best_of(reports) == reports.last() {
                assert(reports[reports.len() - 1] == reports.last());
            } else {
                assert(best_of(reports) == best_of(prefix));
                let i = choose|i: int| 0 <= i < prefix.len() && prefix[i] == best_of(prefix);
                assert(reports[i] == best_of(reports));
            }
        }
    }
}

/// Value-adoption law: over any run of promise reports, if some promise
/// reported the accepted pair (b, v), every reported ballot is at most b,
/// and a report at ballot b can only carry v (ballots are unique to one
/// proposer, which sends one value), then the adopted best is exactly
/// (b, v) — so the Accept a proposer issues on reaching its majority
/// carries v, never its own competing value.
pub proof fn lemma_value_adoption(
    reports: Seq<Option<(RoundIdentifier, char)>>,
    b: RoundIdentifier,
    v: char,
)
    requires
        reports.contains(Some((b, v))),
        forall|i: int| 0 <= i < reports.len() ==> match #[trigger] reports[i] {
            Some(p) => !b.lt_spec(p.0),
            None => true,
        },
        forall|i: int| 0 <= i < reports.len() ==> match #[trigger] reports[i] {
            Some(p) => p.0 == b ==> p.1 == v,
            None => true,
        },
    ensures
        best_of(reports) == Some((b, v)),
    decreases reports.len(),
{
    let prefix = reports.drop_last();
    let wi = choose|i: int| 0 <= i < reports.len() && reports[i] == Some((b, v));
    assert(forall|i: int| 0 <= i < prefix.len() ==> prefix[i] == reports[i]);
    if wi < reports.len() - 1 {
        assert(prefix[wi] == Some((b, v)));
        lemma_value_adoption(prefix, b, v);
        match reports.last() {
            None => {
            }
            Some(p) => {
                assert(reports[reports.len() - 1] == reports.last());
                assert(!b.lt_spec(p.0));
            }
        }
    } else {
        assert(reports.last() == Some((b, v)));
        lemma_best_of_reported(prefix);
        match best_of(prefix) {
            None => {
            }
            Some(c) => {
                let ci = choose|i: int| 0 <= i < prefix.len() && prefix[i] == best_of(prefix);
                assert(reports[ci] == Some(c));
                if c.0.lt_spec(b) {
                } else {
                    assert(!b.lt_spec(c.0));
                    assert(c.0 == b);
                    assert(c.1 == v);
                }
            }
        }
    }
}

/// Merge one reported accepted pair into the best seen so far, and say
/// whether anything changed.
fn merge_best_exec(
    cur: Option<(RoundIdentifier, char)>,
    rep: Option<(RoundIdentifier, char)>,
) -> (r: (Option<(RoundIdentifier, char)>, bool))
    ensures
        r.0 == merge_best(cur, rep),
        r.1 == (merge_best(cur, rep) != cur),
{
    match rep {
        None => (cur, false),
        Some(rp) => match cur {
            None => (Some(rp), true),
            Some(c) => {
                if c.0 < rp.0 {
                    (Some(rp), true)
                } else {
                    (Some(c), false)
                }
            }
        },
    }
}

} // verus!
