use utxo_commitments::peers::UtxoSetRound;
use utxo_commitments::types::{UtxoCommitment, UtxoCommitmentError, UtxoCommitmentResult};

fn commitment(utxo_count: u64) -> UtxoCommitment {
    UtxoCommitment {
        merkle_root: [1u8; 32],
        total_supply: 50,
        utxo_count,
        block_height: 7,
        block_hash: [4u8; 32],
    }
}

#[test]
fn round_without_peers_is_done_at_once() {
    let round: UtxoSetRound<UtxoCommitmentResult<UtxoCommitment>> =
        UtxoSetRound::new(&[], 7, [4u8; 32]);
    assert!(round.next_request().is_none());
    assert!(round.into_results().is_empty());
}

#[test]
fn round_asks_each_peer_in_order_and_keeps_errors() {
    let peers = vec!["a".to_string(), "b".to_string(), "a".to_string()];
    let refusal = UtxoCommitmentError::VerificationFailed("refused".to_string());
    let replies = vec![Ok(commitment(1)), Err(refusal), Ok(commitment(3))];

    let mut round = UtxoSetRound::new(&peers, 7, [4u8; 32]);
    let mut asked: Vec<String> = Vec::new();
    while let Some(request) = round.next_request() {
        assert_eq!(request.height, 7);
        assert_eq!(request.block_hash, [4u8; 32]);
        round.record_reply(replies[asked.len()].clone());
        asked.push(request.peer_id.to_string());
    }
    assert_eq!(asked, peers);

    let results = round.into_results();
    assert_eq!(results.len(), 3);
    for i in 0..3usize {
        assert_eq!(results[i], (peers[i].clone(), replies[i].clone()));
    }
}

#[test]
fn request_is_the_same_until_a_reply_comes() {
    let peers = vec!["x".to_string(), "y".to_string()];
    let mut round = UtxoSetRound::new(&peers, 0, [0u8; 32]);
    assert_eq!(round.next_request().unwrap().peer_id, "x");
    assert_eq!(round.next_request().unwrap().peer_id, "x");
    round.record_reply("any type of reply");
    assert_eq!(round.next_request().unwrap().peer_id, "y");
}
