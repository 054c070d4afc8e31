//! Checks on UTXO commitments that arrive over the peer-to-peer network.
//!
//! A peer answers a request with a filtered block: a header, a commitment to
//! the UTXO set and the transactions that its spam filter let through. Before
//! such a block is used, `process_and_verify_filtered_block` holds it against
//! the expected height, against the local spam filter and against the hash of
//! its own header. `UtxoSetRound` asks a list of peers for their UTXO set, one
//! after the other.

pub mod header;

pub mod network_integration;
pub mod peers;
pub mod spam_filter;
pub mod text;
pub mod types;
