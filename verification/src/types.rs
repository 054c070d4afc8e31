//! The data that a filtered block is made of, and the error of its checks.

use blvm_consensus::types::Transaction;
use vstd::prelude::*;

verus! {

/// A double SHA-256 hash.
pub type HashType = [u8; 32];

/// A block height, a time or another unsigned number of the protocol.
pub type Natural = u64;

/// A signed number of the protocol.
pub type Integer = i64;

/// `blvm_consensus::types::Transaction`. Filtered blocks carry transactions
/// and hand them to the spam filter; nothing here looks inside one.
#[verifier::external_type_specification]
#[verifier::external_body]
pub struct ExTransaction(Transaction);

/// A block header.
#[derive(Debug, Clone, Copy, PartialEq, Eq)]
pub struct BlockHeader {
    pub version: Integer,
    pub prev_block_hash: HashType,
    pub merkle_root: HashType,
    pub timestamp: Natural,
    pub bits: Natural,
    pub nonce: Natural,
}

/// A commitment to the UTXO set as it stands after a block.
#[derive(Debug, Clone, Copy, PartialEq, Eq)]
pub struct UtxoCommitment {
    pub merkle_root: HashType,
    pub total_supply: u64,
    pub utxo_count: u64,
    pub block_height: Natural,
    pub block_hash: HashType,
}

/// What a spam filter reports of the transactions it removed.
#[derive(Debug, Clone, Copy, PartialEq, Eq)]
pub struct SpamSummary {
    pub filtered_count: u32,
}

impl Default for SpamSummary {
    fn default() -> (summary: Self)
        ensures
            summary.filtered_count == 0,
    {
        SpamSummary { filtered_count: 0 }
    }
}

/// Filtered block structure: the transactions of a block without its spam.
#[derive(Debug, Clone)]
pub struct FilteredBlock {
    pub header: BlockHeader,
    pub commitment: UtxoCommitment,
    pub transactions: Vec<Transaction>,
    pub transaction_indices: Vec<u32>,
    pub spam_summary: SpamSummary,
}

/// Why a commitment was not accepted.
#[derive(Debug, Clone, PartialEq, Eq)]
pub enum UtxoCommitmentError {
    VerificationFailed(String),
}

pub type UtxoCommitmentResult<T> = Result<T, UtxoCommitmentError>;

/// What a check has to object: nothing where it passed, else its message.
pub open spec fn objection<T>(res: UtxoCommitmentResult<T>) -> Option<Seq<char>> {
    match res {
        Ok(_) => None,
        Err(UtxoCommitmentError::VerificationFailed(message)) => Some(message@),
    }
}

/// A check passes exactly where it has nothing to object, and what it objects is
/// the message of its error.
pub proof fn law_objection_is_the_error<T>(res: UtxoCommitmentResult<T>)
    ensures
        res is Ok <==> objection(res) is None,
        res matches Err(UtxoCommitmentError::VerificationFailed(message)) ==> objection(res)
            == Some(message@),
{
}

} // verus!
