use blvm_consensus::crypto::OptimizedSha256;
use blvm_consensus::serialization::block::serialize_block_header;
use blvm_consensus::types::{OutPoint, Transaction, TransactionInput, TransactionOutput};
use utxo_commitments::header::{compute_block_hash, verify_commitment_hash};
use utxo_commitments::network_integration::{
    process_and_verify_filtered_block, verify_commitment_height,
};
use utxo_commitments::spam_filter::{
    verify_filtered_block_spam_filtering, verify_refilter, verify_transaction_verdict, SpamFilter,
};
use utxo_commitments::types::{
    BlockHeader, FilteredBlock, SpamSummary, UtxoCommitment, UtxoCommitmentError,
};

fn sample_header() -> BlockHeader {
    BlockHeader {
        version: 1,
        prev_block_hash: [0u8; 32],
        merkle_root: [1u8; 32],
        timestamp: 1_700_000_000,
        bits: 0x207fffff,
        nonce: 0,
    }
}

fn tx_with_value(value: i64) -> Transaction {
    Transaction {
        version: 1,
        inputs: vec![TransactionInput {
            prevout: OutPoint {
                hash: [2u8; 32],
                index: 0,
            },
            script_sig: vec![0x51],
            sequence: 0xffff_ffff,
        }]
        .into(),
        outputs: vec![TransactionOutput {
            value,
            script_pubkey: vec![0x76, 0xa9, 0x14].repeat(20),
        }]
        .into(),
        lock_time: 0,
    }
}

fn sample_tx() -> Transaction {
    tx_with_value(50_000)
}

fn is_dust(tx: &Transaction) -> bool {
    tx.outputs.iter().any(|output| output.value < 546)
}

/// Calls a transaction with a dust output spam.
fn dust_filter() -> SpamFilter<
    impl Fn(&Transaction) -> bool,
    impl Fn(&Vec<Transaction>) -> (Vec<Transaction>, SpamSummary),
> {
    SpamFilter {
        is_spam: is_dust,
        filter_block: |transactions: &Vec<Transaction>| {
            let kept: Vec<Transaction> =
                transactions.iter().filter(|tx| !is_dust(tx)).cloned().collect();
            let filtered_count = (transactions.len() - kept.len()) as u32;
            (kept, SpamSummary { filtered_count })
        },
    }
}

fn block_of(transactions: Vec<Transaction>) -> FilteredBlock {
    let header = sample_header();
    FilteredBlock {
        header,
        commitment: UtxoCommitment {
            merkle_root: [3u8; 32],
            total_supply: 21_000_000,
            utxo_count: 1,
            block_height: 100,
            block_hash: compute_block_hash(&header),
        },
        transaction_indices: (0..transactions.len() as u32).collect(),
        transactions,
        spam_summary: SpamSummary::default(),
    }
}

fn failed<T>(message: &str) -> Result<T, UtxoCommitmentError> {
    Err(UtxoCommitmentError::VerificationFailed(message.to_string()))
}

#[test]
fn process_and_verify_filtered_block_reapplies_spam_filter() {
    let header = sample_header();
    let hash = compute_block_hash(&header);
    let spam_filter = dust_filter();
    let filtered_block = FilteredBlock {
        header: header.clone(),
        commitment: UtxoCommitment {
            merkle_root: [3u8; 32],
            total_supply: 21_000_000,
            utxo_count: 1,
            block_height: 100,
            block_hash: hash,
        },
        transactions: vec![sample_tx()],
        transaction_indices: vec![0],
        spam_summary: SpamSummary::default(),
    };

    assert!(process_and_verify_filtered_block(&filtered_block, 100, &spam_filter).unwrap());
}

#[test]
fn empty_block_is_accepted() {
    let block = block_of(Vec::new());
    assert_eq!(
        process_and_verify_filtered_block(&block, 100, &dust_filter()),
        Ok(true)
    );
}

#[test]
fn wrong_height_is_refused_before_anything_else() {
    let mut block = block_of(vec![tx_with_value(1)]);
    block.commitment.block_hash = [0u8; 32];
    assert_eq!(
        process_and_verify_filtered_block(&block, 101, &dust_filter()),
        failed("Commitment height mismatch: expected 101, got 100")
    );
}

#[test]
fn height_message_holds_the_largest_numbers() {
    let mut commitment = block_of(Vec::new()).commitment;
    commitment.block_height = u64::MAX;
    assert_eq!(
        verify_commitment_height(&commitment, 0),
        failed("Commitment height mismatch: expected 0, got 18446744073709551615")
    );
    assert_eq!(verify_commitment_height(&commitment, u64::MAX), Ok(()));
}

#[test]
fn first_spam_transaction_is_named() {
    let mut transactions: Vec<Transaction> = (0..12).map(|_| sample_tx()).collect();
    transactions[10] = tx_with_value(545);
    transactions[11] = tx_with_value(0);
    let mut block = block_of(transactions);
    block.commitment.block_hash = [9u8; 32];
    let expected = "Filtered block transaction 10 failed local spam filter";
    assert_eq!(
        process_and_verify_filtered_block(&block, 100, &dust_filter()),
        failed(expected)
    );
    assert_eq!(
        verify_filtered_block_spam_filtering(&block, &dust_filter()),
        failed(expected)
    );
}

#[test]
fn filter_that_keeps_fewer_is_refused() {
    let filter = SpamFilter {
        is_spam: |_: &Transaction| false,
        filter_block: |_: &Vec<Transaction>| (Vec::new(), SpamSummary { filtered_count: 1 }),
    };
    let block = block_of(vec![sample_tx()]);
    assert_eq!(
        process_and_verify_filtered_block(&block, 100, &filter),
        failed("Filtered block transactions fail local spam re-filter")
    );
}

#[test]
fn filter_that_counts_spam_is_refused() {
    let filter = SpamFilter {
        is_spam: |_: &Transaction| false,
        filter_block: |transactions: &Vec<Transaction>| {
            (transactions.clone(), SpamSummary { filtered_count: 1 })
        },
    };
    let block = block_of(vec![sample_tx()]);
    assert_eq!(
        process_and_verify_filtered_block(&block, 100, &filter),
        failed("Filtered block included transactions classified as spam locally")
    );
}

#[test]
fn verdict_and_refilter_decide_on_their_arguments_alone() {
    assert_eq!(verify_transaction_verdict(7, false), Ok(()));
    assert_eq!(
        verify_transaction_verdict(7, true),
        failed("Filtered block transaction 7 failed local spam filter")
    );
    let none = SpamSummary::default();
    let three = SpamSummary { filtered_count: 3 };
    assert_eq!(verify_refilter(2, 2, &none), Ok(()));
    assert_eq!(
        verify_refilter(2, 1, &three),
        failed("Filtered block transactions fail local spam re-filter")
    );
    assert_eq!(
        verify_refilter(2, 2, &three),
        failed("Filtered block included transactions classified as spam locally")
    );
}

#[test]
fn foreign_commitment_is_refused() {
    let mut block = block_of(vec![sample_tx()]);
    let computed = block.commitment.block_hash;
    let mut claimed = computed;
    claimed[31] = claimed[31].wrapping_add(1);
    block.commitment.block_hash = claimed;
    let message = format!(
        "Block hash mismatch: expected {:?}, got {:?}",
        computed, claimed
    );
    assert_eq!(
        process_and_verify_filtered_block(&block, 100, &dust_filter()),
        failed(&message)
    );
    assert_eq!(
        verify_commitment_hash(&block.commitment, &computed),
        failed(&message)
    );
    assert_eq!(verify_commitment_hash(&block.commitment, &claimed), Ok(()));
}

#[test]
fn informational_fields_change_nothing() {
    let mut block = block_of(vec![sample_tx()]);
    block.spam_summary = SpamSummary { filtered_count: 77 };
    block.transaction_indices = vec![5, 6, 7];
    block.commitment.merkle_root = [0xee; 32];
    block.commitment.total_supply = 0;
    block.commitment.utxo_count = u64::MAX;
    assert_eq!(
        process_and_verify_filtered_block(&block, 100, &dust_filter()),
        Ok(true)
    );
}

/// The hash of a header by way of its serialization in `blvm_consensus`.
fn consensus_hash(header: &BlockHeader) -> [u8; 32] {
    let wire = blvm_consensus::types::BlockHeader {
        version: header.version,
        prev_block_hash: header.prev_block_hash,
        merkle_root: header.merkle_root,
        timestamp: header.timestamp,
        bits: header.bits,
        nonce: header.nonce,
    };
    OptimizedSha256::new().hash256(&serialize_block_header(&wire))
}

fn counting_header() -> BlockHeader {
    let mut prev_block_hash = [0u8; 32];
    let mut merkle_root = [0u8; 32];
    for i in 0..32usize {
        prev_block_hash[i] = i as u8;
        merkle_root[i] = 255 - i as u8;
    }
    BlockHeader {
        version: -2,
        prev_block_hash,
        merkle_root,
        timestamp: 0xffff_ffff,
        bits: 0x1d00ffff,
        nonce: 2_083_236_893,
    }
}

#[test]
fn block_hash_is_the_double_sha256_of_the_serialized_header() {
    assert_eq!(
        compute_block_hash(&sample_header()),
        [
            206, 60, 162, 80, 162, 29, 211, 101, 18, 42, 45, 180, 33, 206, 237, 133,
            31, 139, 180, 229, 19, 106, 149, 208, 132, 112, 26, 17, 186, 203, 17, 63,
        ]
    );
}

#[test]
fn block_hash_of_a_negative_version() {
    assert_eq!(
        compute_block_hash(&counting_header()),
        [
            107, 236, 5, 135, 119, 20, 186, 50, 240, 62, 15, 106, 3, 161, 161, 49,
            182, 107, 94, 249, 93, 125, 183, 194, 142, 133, 60, 200, 178, 107, 247, 195,
        ]
    );
}

#[test]
fn block_hash_of_the_genesis_block() {
    let header = BlockHeader {
        version: 1,
        prev_block_hash: [0u8; 32],
        merkle_root: [
            59, 163, 237, 253, 122, 123, 18, 178, 122, 199, 44, 62, 103, 118, 143, 97,
            127, 200, 27, 195, 136, 138, 81, 50, 58, 159, 184, 170, 75, 30, 94, 74,
        ],
        timestamp: 1_231_006_505,
        bits: 0x1d00ffff,
        nonce: 2_083_236_893,
    };
    assert_eq!(
        compute_block_hash(&header),
        [
            111, 226, 140, 10, 182, 241, 179, 114, 193, 166, 162, 70, 174, 99, 247, 79,
            147, 30, 131, 101, 225, 90, 8, 156, 104, 214, 25, 0, 0, 0, 0, 0,
        ]
    );
}

#[test]
fn block_hash_agrees_with_the_consensus_hash() {
    let mut wide = counting_header();
    wide.version = i64::MIN + 5;
    wide.timestamp = u64::MAX - 1;
    wide.bits = 0x1_207f_ffff;
    wide.nonce = 1 << 32;
    for header in [sample_header(), counting_header(), wide] {
        assert_eq!(compute_block_hash(&header), consensus_hash(&header));
    }
}

#[test]
fn commitment_to_the_consensus_hash_is_accepted() {
    let mut block = block_of(vec![sample_tx()]);
    block.commitment.block_hash = consensus_hash(&block.header);
    assert_eq!(
        process_and_verify_filtered_block(&block, 100, &dust_filter()),
        Ok(true)
    );
}

#[test]
fn every_header_field_enters_the_hash() {
    let header = sample_header();
    let mut others = vec![header; 6];
    others[0].version = 2;
    others[1].prev_block_hash[31] = 1;
    others[2].merkle_root[0] = 0;
    others[3].timestamp += 1;
    others[4].bits += 1 << 31;
    others[5].nonce = 0xffff_ffff;
    for other in &others {
        assert_ne!(compute_block_hash(other), compute_block_hash(&header));
    }
}

#[test]
fn steady_filter_gives_the_same_outcome_twice() {
    for block in [
        block_of(vec![sample_tx(), tx_with_value(10)]),
        block_of(vec![sample_tx(), sample_tx()]),
    ] {
        assert_eq!(
            process_and_verify_filtered_block(&block, 100, &dust_filter()),
            process_and_verify_filtered_block(&block, 100, &dust_filter())
        );
    }
}
