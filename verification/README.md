# utxo_commitments

Checks on UTXO commitments that peers send over the network, verified with
Verus.

- `src/network_integration.rs`: the checks on a filtered block as a whole, and
  the laws that they obey.
- `src/header.rs`: the hash of a block header. SHA-256 itself is trusted.
- `src/spam_filter.rs`: the local spam filter's second look at a block.
- `src/peers.rs`: a round of requests for the UTXO set, peer by peer.
- `src/text.rs`, `src/types.rs`: message texts and data types.
- `app/`: the asynchronous network interface around the library.

The hash of a header is the double SHA-256 of its 80 serialized bytes, the block
hash that the consensus rules use.
