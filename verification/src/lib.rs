//! A federated keyserver for a content-addressable identity service over a
//! chain substrate: each identity (a public-key hash) maps to one signed
//! metadata envelope, writes are gated by a proof-of-payment token that
//! commits to the identity and its metadata digest on chain, and servers
//! gossip accepted writes to a loose mesh of peers.
//!
//! The crate holds the service's rules — the wire codecs, the envelope
//! checks, the commitment scheme, the store, the peer-mesh bookkeeping and
//! the request handlers — each with its contract. Network and disk edges
//! take the library's plain values and hand plain values back.

pub mod codec;
pub mod crypto;
pub mod hex;
pub mod models;
pub mod net;
pub mod payments;
pub mod peering;
pub mod settings;
pub mod store;
pub mod token;
pub mod token_cache;
pub mod tx;
pub mod wrapper;
