use vstd::prelude::*;

verus! {

/// Totally ordered ballot identifier: a round number paired with the minting
/// node's identity. Higher round wins; equal rounds tie-break on the node id,
/// so no two nodes ever mint equal ballots.
#[derive(Clone, Copy, PartialEq, Eq, Structural, Debug, Hash)]
pub struct RoundIdentifier {
    pub round_num: u32,
    pub id: u64,
}

impl RoundIdentifier {
    /// The strict total order on ballots: round first, node id as tie-break.
    pub open spec fn lt_spec(self, other: RoundIdentifier) -> bool {
        self.round_num < other.round_num || (self.round_num == other.round_num
            && self.id < other.id)
    }
}

impl PartialOrd for RoundIdentifier {
    fn partial_cmp(&self, other: &Self) -> (r: Option<core::cmp::Ordering>) {
        if self.round_num < other.round_num {
            Some(core::cmp::Ordering::Less)
        } else if self.round_num > other.round_num {
            Some(core::cmp::Ordering::Greater)
        } else if self.id < other.id {
            Some(core::cmp::Ordering::Less)
        } else if self.id > other.id {
            Some(core::cmp::Ordering::Greater)
        } else {
            Some(core::cmp::Ordering::Equal)
        }
    }
}

impl vstd::std_specs::cmp::PartialOrdSpecImpl for RoundIdentifier {
    open spec fn obeys_partial_cmp_spec() -> bool {
        true
    }

    open spec fn partial_cmp_spec(&self, other: &Self) -> Option<core::cmp::Ordering> {
        if self.lt_spec(*other) {
            Some(core::cmp::Ordering::Less)
        } else if other.lt_spec(*self) {
            Some(core::cmp::Ordering::Greater)
        } else {
            Some(core::cmp::Ordering::Equal)
        }
    }
}

/// The ballot order is total: any two ballots are ordered or equal, and the
/// three outcomes exclude one another.
pub proof fn lemma_ballot_order_total(a: RoundIdentifier, b: RoundIdentifier)
    ensures
        a.lt_spec(b) || b.lt_spec(a) || a == b,
        !(a.lt_spec(b) && b.lt_spec(a)),
        a.lt_spec(b) ==> a != b,
{
}

/// The ballot order is transitive.
pub proof fn lemma_ballot_order_transitive(a: RoundIdentifier, b: RoundIdentifier, c: RoundIdentifier)
    requires
        a.lt_spec(b),
        b.lt_spec(c),
    ensures
        a.lt_spec(c),
{
}

/// Ballots minted by distinct nodes are never equal, whatever their rounds.
pub proof fn lemma_mint_distinct(a: RoundIdentifier, b: RoundIdentifier)
    requires
        a.id != b.id,
    ensures
        a != b,
{
}

/// Ballots minted by one node are strictly increasing in its round counter.
pub proof fn lemma_mint_monotonic(a: RoundIdentifier, b: RoundIdentifier)
    requires
        a.id == b.id,
        a.round_num < b.round_num,
    ensures
        a.lt_spec(b),
{
}

} // verus!
