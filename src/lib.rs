//! A ledger of hash-linked market-data blocks and the consensus protocols
//! that agree on its next block: PBFT, gossip diffusion, time-gated eventual
//! commitment, weighted voting and Flexible Paxos, behind one benchmark
//! surface. Every function is verified against its contract; the calls into
//! sha2, serde_json, chrono, hostname and `str::to_lowercase` stand behind
//! small trusted wrappers whose doc comments say what they rely on.

pub mod bench;
pub mod block;
mod clock;
pub mod config;
pub mod consensus;
pub mod encoding;
pub mod eventual;
pub mod extract;
pub mod gossip;
pub mod host;
pub mod paxos;
pub mod pbft;
pub mod quorum;
pub mod quorumless;
pub mod store;
pub mod strategy;
pub mod validator;
pub mod votes;
