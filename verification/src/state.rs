use vstd::prelude::*;
use crate::ballot::RoundIdentifier;
use crate::records::keys_distinct;
use crate::records::lookup;

verus! {

/// Per-ballot bookkeeping of a Prepare round: which peers promised the
/// ballot, and the highest previously accepted (ballot, value) pair any of
/// them reported.
#[derive(Clone, Debug, PartialEq, Eq, Hash)]
pub struct PromiseTally {
    pub voters: Vec<u64>,
    pub best: Option<(RoundIdentifier, char)>,
}

/// The whole protocol state one node holds for one decision instance. A node
/// plays both roles: `last_seen` and `highest_accepted` belong to the
/// acceptor, the three records and `round` to the proposer, and
/// `decided`/`value` to the committed outcome.
#[derive(Clone, Debug, PartialEq, Eq, Hash)]
pub struct PaxosState {
    /// This node's identity.
    pub id: u64,
    /// The per-node round counter behind ballot minting.
    pub round: u32,
    /// For each ballot this node minted: the value it proposed for it.
    pub prepare_data: Vec<(RoundIdentifier, char)>,
    /// For each ballot this node minted: the promises gathered so far.
    pub promises: Vec<(RoundIdentifier, PromiseTally)>,
    /// For each ballot: the peers seen to have accepted its value.
    pub accepts: Vec<(RoundIdentifier, Vec<u64>)>,
    /// The highest ballot this node has promised, if any; it accepts a value
    /// only at exactly this ballot.
    pub last_seen: Option<RoundIdentifier>,
    /// The latest (ballot, value) pair this node has accepted, if any.
    pub highest_accepted: Option<(RoundIdentifier, char)>,
    /// The decided value, once `decided` holds.
    pub value: Option<char>,
    /// Whether this node has committed a decision; a decided instance never
    /// reopens.
    pub decided: bool,
}

impl PaxosState {
    /// Well-formedness: each record is keyed by distinct ballots, voter lists
    /// hold no duplicates, every ballot this node minted carries its own id
    /// and a round the counter has reached, and a decided node holds a value.
    pub open spec fn wf(self) -> bool {
        &&& keys_distinct(self.prepare_data@)
        &&& keys_distinct(self.promises@)
        &&& keys_distinct(self.accepts@)
        &&& forall|i: int| 0 <= i < self.promises@.len()
            ==> (#[trigger] self.promises@[i]).1.voters@.no_duplicates()
        &&& forall|i: int| 0 <= i < self.accepts@.len()
            ==> (#[trigger] self.accepts@[i]).1@.no_duplicates()
        &&& forall|i: int| 0 <= i < self.prepare_data@.len()
            ==> ((#[trigger] self.prepare_data@[i]).0.id == self.id
                && 1 <= self.prepare_data@[i].0.round_num <= self.round)
        &&& self.decided ==> self.value is Some
    }

    /// The fields of `a` and `b` are equal: the two states are the same.
    pub open spec fn state_eq(a: PaxosState, b: PaxosState) -> bool {
        &&& a.id == b.id
        &&& a.round == b.round
        &&& a.prepare_data@ == b.prepare_data@
        &&& a.promises@ == b.promises@
        &&& a.accepts@ == b.accepts@
        &&& a.last_seen == b.last_seen
        &&& a.highest_accepted == b.highest_accepted
        &&& a.value == b.value
        &&& a.decided == b.decided
    }

    /// The acceptor half of `a` and `b` agrees and the proposer records are
    /// untouched except possibly the promise record.
    pub open spec fn unchanged_but_promises(a: PaxosState, b: PaxosState) -> bool {
        &&& a.id == b.id
        &&& a.round == b.round
        &&& a.prepare_data@ == b.prepare_data@
        &&& a.accepts@ == b.accepts@
        &&& a.last_seen == b.last_seen
        &&& a.highest_accepted == b.highest_accepted
    }

    /// The fresh state a node starts an instance with: nothing promised,
    /// nothing accepted, nothing proposed, nothing decided.
    pub open spec fn initial(self, id: u64) -> bool {
        &&& self.id == id
        &&& self.round == 0
        &&& self.prepare_data@ == Seq::<(RoundIdentifier, char)>::empty()
        &&& self.promises@ == Seq::<(RoundIdentifier, PromiseTally)>::empty()
        &&& self.accepts@ == Seq::<(RoundIdentifier, Vec<u64>)>::empty()
        &&& self.last_seen is None
        &&& self.highest_accepted is None
        &&& self.value is None
        &&& !self.decided
    }

    /// Mint the next ballot: bump this node's round counter and pair it with
    /// the node's identity. The result is strictly above every ballot this
    /// node minted before, and no other node ever mints an equal one.
    pub fn next_round(&mut self) -> (r: RoundIdentifier)
        requires
            old(self).round < u32::MAX,
        ensures
            final(self).round == old(self).round + 1,
            r == (RoundIdentifier { round_num: final(self).round, id: old(self).id }),
            final(self).id == old(self).id,
            final(self).prepare_data@ == old(self).prepare_data@,
            final(self).promises@ == old(self).promises@,
            final(self).accepts@ == old(self).accepts@,
            final(self).last_seen == old(self).last_seen,
            final(self).highest_accepted == old(self).highest_accepted,
            final(self).value == old(self).value,
            final(self).decided == old(self).decided,
    {
        self.round = self.round + 1;
        RoundIdentifier { round_num: self.round, id: self.id }
    }

    /// A freshly minted ballot is not yet in a record whose keys all carry
    /// this node's id and a round the counter had already reached.
    pub proof fn lemma_fresh_ballot_unrecorded<V>(s: Seq<(RoundIdentifier, V)>, id: u64, bound: u32, r: RoundIdentifier)
        requires
            forall|i: int| 0 <= i < s.len()
                ==> ((#[trigger] s[i]).0.id == id && s[i].0.round_num <= bound),
            r.round_num > bound,
        ensures
            lookup(s, r) is None,
    {
        assert(forall|i: int| 0 <= i < s.len() ==> (#[trigger] s[i]).0 != r);
    }
}

} // verus!
