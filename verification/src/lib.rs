//! Single-decree Paxos: a fixed set of peers agrees on one value per instance
//! despite message loss, duplication and reordering.
//!
//! The protocol core is a pure state machine: every handler maps a node state
//! and one incoming message to a new state and a list of outbound messages.
//! Delivery, timers and wire encoding belong to the surrounding substrate.

pub mod ballot;
pub mod quorum;
pub mod msg;
pub mod network;
pub mod node;
pub mod records;
pub mod run;
pub mod state;

pub use ballot::RoundIdentifier;
pub use msg::Outbound;
pub use msg::PaxosMsg;
pub use node::PaxosActor;
pub use quorum::is_majority;
pub use state::PaxosState;
pub use state::PromiseTally;
