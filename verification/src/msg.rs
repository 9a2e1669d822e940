use vstd::prelude::*;
use crate::ballot::RoundIdentifier;

verus! {

/// Protocol messages exchanged between nodes. Every variant carries the
/// correlation id of the client request that started the run and the identity
/// of the original requester, so the eventual decision can be routed back.
#[derive(Clone, Copy, Debug, PartialEq, Eq, Hash)]
pub enum PaxosMsg {
    /// Prepare(correlation, requester, ballot): solicit promises for `ballot`.
    Prepare(u64, u64, RoundIdentifier),
    /// Promise(correlation, requester, ballot, accepted-if-any): the sender
    /// promises to accept nothing below `ballot` and reports its latest
    /// accepted (ballot, value) pair, if it has one.
    Promise(u64, u64, RoundIdentifier, Option<(RoundIdentifier, char)>),
    /// Accept(correlation, requester, ballot, value): ask acceptors to accept
    /// `value` at `ballot`.
    Accept(u64, u64, RoundIdentifier, char),
    /// Accepted(correlation, requester, ballot, value): the sender accepted
    /// `value` at `ballot`.
    Accepted(u64, u64, RoundIdentifier, char),
    /// Nack(correlation, requester, ballot): `ballot` was rejected because a
    /// higher one is already promised; the proposer should abandon it.
    Nack(u64, u64, RoundIdentifier),
}

/// An outbound action a handler asks the messaging substrate to perform.
#[derive(Clone, Copy, Debug, PartialEq, Eq, Hash)]
pub enum Outbound {
    /// Send the message to one peer.
    Send(u64, PaxosMsg),
    /// Send the message to every peer, the node itself included.
    Broadcast(PaxosMsg),
    /// Decided(requester, correlation, value): report the decided value to
    /// the client that started the run.
    Decided(u64, u64, char),
}

} // verus!
