//! The protocol-composition layer of a peer-to-peer node: one behaviour that
//! owns the chain-sync, peer-info, discovery, content-exchange and
//! request/response sub-protocols, adapts their events into one ordered
//! output stream, and delegates its control surface to them.

pub mod behaviour;
pub mod chain_sync;
pub mod discovery;
pub mod ids;
pub mod laws;
pub mod peer_info;
pub mod reply;
pub mod request_responses;
pub mod role;
