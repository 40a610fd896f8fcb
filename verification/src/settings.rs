//! The settings bundle: every knob the server runs under, threaded into each
//! component at construction. Loading it from files and flags is the
//! embedding program's concern.

use vstd::prelude::*;

verus! {

/// The chain the server serves.
#[derive(Clone, Copy, Debug, PartialEq, Eq)]
pub enum Network {
    /// The production chain.
    Mainnet,
    /// The public test chain.
    Testnet,
    /// A local regression-test chain.
    Regtest,
}

impl Network {
    /// The name the invoice carries for this chain.
    pub fn as_str(&self) -> (r: &'static str)
        ensures
            r@ == match *self {
                Network::Mainnet => "mainnet"@,
                Network::Testnet => "testnet"@,
                Network::Regtest => "regtest"@,
            },
    {
        match self {
            Network::Mainnet => "mainnet",
            Network::Testnet => "testnet",
            Network::Regtest => "regtest",
        }
    }
}

/// How to reach the chain node.
#[derive(Clone, Debug, PartialEq, Eq)]
pub struct BitcoinRpc {
    /// The node's RPC endpoint.
    pub address: String,
    /// The RPC user.
    pub username: String,
    /// The RPC password.
    pub password: String,
    /// The node's block-hash publication endpoint.
    pub zmq_address: String,
}

/// Request size limits.
#[derive(Clone, Copy, Debug, PartialEq, Eq)]
pub struct Limits {
    /// Largest accepted metadata body, in bytes.
    pub metadata_size: u64,
}

/// How invoices are issued.
#[derive(Clone, Debug, PartialEq, Eq)]
pub struct Payment {
    /// How long an invoice is advertised as valid, in milliseconds;
    /// informational only.
    pub timeout: u64,
    /// The fee an invoice asks for.
    pub token_fee: u64,
    /// The memo acknowledgements carry.
    pub memo: String,
}

/// The live-connection knobs.
#[derive(Clone, Copy, Debug, PartialEq, Eq)]
pub struct Websocket {
    /// Milliseconds between keep-alive pings.
    pub ping_interval: u64,
    /// Longest message kept whole, in bytes.
    pub truncation_length: u64,
}

/// The peer-mesh knobs.
#[derive(Clone, Debug, PartialEq, Eq)]
pub struct Peering {
    /// Whether the peer surface is served at all.
    pub enabled: bool,
    /// The crawl's bound on the live set.
    pub max_peers: u32,
    /// Connect timeout for peer requests, in seconds.
    pub timeout: u64,
    /// Keep-alive interval for peer connections, in seconds.
    pub keep_alive: u64,
    /// Seed peers folded into the live set at start.
    pub peers: Vec<String>,
    /// How many peers a read miss samples.
    pub pull_fan_size: usize,
    /// How many peers a write is gossiped to.
    pub push_fan_size: usize,
    /// How many chain ticks a write waits before gossip.
    pub broadcast_delay: usize,
}

/// Everything the server runs under.
#[derive(Clone, Debug, PartialEq, Eq)]
pub struct Settings {
    /// The listen address.
    pub bind: String,
    /// Where the store lives on disk.
    pub db_path: String,
    /// The chain the server serves.
    pub network: Network,
    /// How to reach the chain node.
    pub bitcoin_rpc: BitcoinRpc,
    /// Request size limits.
    pub limits: Limits,
    /// How invoices are issued.
    pub payments: Payment,
    /// The peer-mesh knobs.
    pub peering: Peering,
    /// The live-connection knobs.
    pub websocket: Websocket,
}

} // verus!
