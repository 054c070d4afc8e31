//! The checks on a filtered block from a peer, and what they guarantee.

use crate::header::{
    block_hash, compute_block_hash, hash_objection, law_equal_block_hashes_need_a_collision,
    sha256_digest, verify_commitment_hash,
};
use crate::spam_filter::{
    law_failed_second_look, law_passed_second_look, law_settled_filter_settles_the_second_look,
    verify_filtered_block_spam_filtering, SpamFilter,
};
use crate::text::{byte_list, decimal, push_decimal};
use crate::types::{
    objection, BlockHeader, FilteredBlock, Natural, SpamSummary, UtxoCommitment,
    UtxoCommitmentError, UtxoCommitmentResult,
};
use blvm_consensus::types::Transaction;
use vstd::prelude::*;
use vstd::string::StringExecFns;

verus! {

/// The message for a commitment at height `claimed` where `expected` was due.
pub open spec fn height_message(expected: Natural, claimed: Natural) -> Seq<char> {
    "Commitment height mismatch: expected "@ + decimal(expected as nat) + ", got "@ + decimal(
        claimed as nat,
    )
}

/// What is to object to a commitment at height `claimed`.
pub open spec fn height_objection(expected: Natural, claimed: Natural) -> Option<Seq<char>> {
    if claimed == expected {
        None
    } else {
        Some(height_message(expected, claimed))
    }
}

/// `outcome` is a possible end of the checks on a filtered block. The height is
/// checked first, the transactions second, the block hash last; the first
/// objection stands.
pub open spec fn block_outcome<S, B>(
    filtered_block: FilteredBlock,
    expected_height: Natural,
    spam_filter: SpamFilter<S, B>,
    outcome: Option<Seq<char>>,
) -> bool where
    S: Fn(&Transaction) -> bool,
    B: Fn(&Vec<Transaction>) -> (Vec<Transaction>, SpamSummary),
 {
    let commitment = filtered_block.commitment;
    if commitment.block_height != expected_height {
        outcome == Some(height_message(expected_height, commitment.block_height))
    } else {
        exists|spam: Option<Seq<char>>| #[trigger]
            spam_filter.spam_outcome(filtered_block.transactions, spam) && outcome == (
            if spam is Some {
                spam
            } else {
                hash_objection(block_hash(filtered_block.header), commitment.block_hash@)
            })
    }
}

/// Verify commitment height matches.
pub fn verify_commitment_height(commitment: &UtxoCommitment, expected_height: Natural) -> (res:
    UtxoCommitmentResult<()>)
    ensures
        objection(res) == height_objection(expected_height, commitment.block_height),
        res is Ok <==> commitment.block_height == expected_height,
{
    if commitment.block_height == expected_height {
        return Ok(());
    }
    let mut message = String::from_str("Commitment height mismatch: expected ");
    push_decimal(&mut message, expected_height);
    message.append(", got ");
    push_decimal(&mut message, commitment.block_height);
    Err(UtxoCommitmentError::VerificationFailed(message))
}

/// Helper to process filtered block and verify commitment
///
/// Of the header only its hash is checked, not its place in a chain. The
/// result, where there is no error, is `true`.
pub fn process_and_verify_filtered_block<S, B>(
    filtered_block: &FilteredBlock,
    expected_height: Natural,
    spam_filter: &SpamFilter<S, B>,
) -> (res: UtxoCommitmentResult<bool>) where
    S: Fn(&Transaction) -> bool,
    B: Fn(&Vec<Transaction>) -> (Vec<Transaction>, SpamSummary),

    requires
        spam_filter.accepts(filtered_block.transactions),
    ensures
        block_outcome(*filtered_block, expected_height, *spam_filter, objection(res)),
        res matches Ok(verified) ==> verified,
        res is Ok ==> {
            &&& filtered_block.commitment.block_height == expected_height
            &&& filtered_block.commitment.block_hash@ == block_hash(filtered_block.header)
            &&& forall|i: int|
                0 <= i < filtered_block.transactions@.len() ==> call_ensures(
                    spam_filter.is_spam,
                    (&#[trigger] filtered_block.transactions@[i],),
                    false,
                )
        },
{
    let height = verify_commitment_height(&filtered_block.commitment, expected_height);
    if let Err(error) = height {
        return Err(error);
    }

    // Verify transactions are non-spam (re-apply local filter; fail closed on mismatch).
    let spam = verify_filtered_block_spam_filtering(filtered_block, spam_filter);
    assert(spam_filter.spam_outcome(filtered_block.transactions, objection(spam)));
    if let Err(error) = spam {
        return Err(error);
    }

    let computed_hash = compute_block_hash(&filtered_block.header);
    match verify_commitment_hash(&filtered_block.commitment, &computed_hash) {
        Ok(_) => Ok(true),
        Err(error) => Err(error),
    }
}

/// Any height but the expected one is objected to, and the message gives the
/// expected height first, then the claimed one.
pub proof fn law_height_objection(expected: Natural, claimed: Natural)
    ensures
        height_objection(expected, claimed) is None <==> claimed == expected,
        claimed != expected ==> height_objection(expected, claimed) == Some(
            "Commitment height mismatch: expected "@ + decimal(expected as nat) + ", got "@
                + decimal(claimed as nat),
        ),
{
}

/// An accepted block has the expected height, holds no transaction that the
/// local filter called spam, lost none when it was filtered again, and commits
/// to the hash of its own header.
pub proof fn law_accepted_block<S, B>(
    filtered_block: FilteredBlock,
    expected_height: Natural,
    spam_filter: SpamFilter<S, B>,
) where
    S: Fn(&Transaction) -> bool,
    B: Fn(&Vec<Transaction>) -> (Vec<Transaction>, SpamSummary),

    requires
        block_outcome(filtered_block, expected_height, spam_filter, None),
    ensures
        filtered_block.commitment.block_height == expected_height,
        forall|i: int|
            0 <= i < filtered_block.transactions@.len() ==> call_ensures(
                spam_filter.is_spam,
                (&#[trigger] filtered_block.transactions@[i],),
                false,
            ),
        exists|retained: Vec<Transaction>, summary: SpamSummary| #[trigger]
            call_ensures(
                spam_filter.filter_block,
                (&filtered_block.transactions,),
                (retained, summary),
            ) && retained@.len() == filtered_block.transactions@.len() && summary.filtered_count
                == 0,
        filtered_block.commitment.block_hash@ == block_hash(filtered_block.header),
{
    law_passed_second_look(spam_filter, filtered_block.transactions);
}

/// A refused block has one of three faults, looked for in this order, and the
/// message of the first that it has: another height than expected; transactions
/// that failed the filter's second look; a commitment to another hash than that
/// of its own header.
pub proof fn law_refused_block<S, B>(
    filtered_block: FilteredBlock,
    expected_height: Natural,
    spam_filter: SpamFilter<S, B>,
    message: Seq<char>,
) where
    S: Fn(&Transaction) -> bool,
    B: Fn(&Vec<Transaction>) -> (Vec<Transaction>, SpamSummary),

    requires
        block_outcome(filtered_block, expected_height, spam_filter, Some(message)),
    ensures
        ({
            let commitment = filtered_block.commitment;
            let transactions = filtered_block.transactions;
            let hash = block_hash(filtered_block.header);
            if commitment.block_height != expected_height {
                message == "Commitment height mismatch: expected "@ + decimal(
                    expected_height as nat,
                ) + ", got "@ + decimal(commitment.block_height as nat)
            } else {
                ||| spam_filter.spam_outcome(transactions, Some(message))
                ||| spam_filter.spam_outcome(transactions, None) && commitment.block_hash@ != hash
                    && message == "Block hash mismatch: expected "@ + byte_list(hash) + ", got "@
                    + byte_list(commitment.block_hash@)
            }
        }),
{
}

/// A block at the expected height is accepted, if the filter calls none of its
/// transactions spam, keeps them all when it filters them again, and the
/// commitment is to the hash of the header.
pub proof fn law_clean_block_is_accepted<S, B>(
    filtered_block: FilteredBlock,
    expected_height: Natural,
    spam_filter: SpamFilter<S, B>,
    outcome: Option<Seq<char>>,
) where
    S: Fn(&Transaction) -> bool,
    B: Fn(&Vec<Transaction>) -> (Vec<Transaction>, SpamSummary),

    requires
        filtered_block.commitment.block_height == expected_height,
        forall|i: int|
            0 <= i < filtered_block.transactions@.len() ==> !call_ensures(
                spam_filter.is_spam,
                (&#[trigger] filtered_block.transactions@[i],),
                true,
            ),
        forall|retained: Vec<Transaction>, summary: SpamSummary| #[trigger]
            call_ensures(
                spam_filter.filter_block,
                (&filtered_block.transactions,),
                (retained, summary),
            ) ==> retained@.len() == filtered_block.transactions@.len() && summary.filtered_count
                == 0,
        filtered_block.commitment.block_hash@ == block_hash(filtered_block.header),
        block_outcome(filtered_block, expected_height, spam_filter, outcome),
    ensures
        outcome is None,
{
    if let Some(message) = outcome {
        law_refused_block(filtered_block, expected_height, spam_filter, message);
        if spam_filter.spam_outcome(filtered_block.transactions, Some(message)) {
            law_failed_second_look(spam_filter, filtered_block.transactions, message);
        }
    }
}

/// The checks fail closed: one transaction that the filter never lets pass is
/// enough for the block to be refused, whatever else holds of it.
pub proof fn law_spam_is_refused<S, B>(
    filtered_block: FilteredBlock,
    expected_height: Natural,
    spam_filter: SpamFilter<S, B>,
    k: int,
    outcome: Option<Seq<char>>,
) where
    S: Fn(&Transaction) -> bool,
    B: Fn(&Vec<Transaction>) -> (Vec<Transaction>, SpamSummary),

    requires
        0 <= k < filtered_block.transactions@.len(),
        !call_ensures(spam_filter.is_spam, (&filtered_block.transactions@[k],), false),
        block_outcome(filtered_block, expected_height, spam_filter, outcome),
    ensures
        outcome is Some,
{
    if outcome is None {
        law_accepted_block(filtered_block, expected_height, spam_filter);
    }
}

/// The first spam transaction of a block at the expected height is the one that
/// is objected to, by its index, whatever the block hash.
pub proof fn law_first_spam_is_named<S, B>(
    filtered_block: FilteredBlock,
    expected_height: Natural,
    spam_filter: SpamFilter<S, B>,
    k: int,
    outcome: Option<Seq<char>>,
) where
    S: Fn(&Transaction) -> bool,
    B: Fn(&Vec<Transaction>) -> (Vec<Transaction>, SpamSummary),

    requires
        filtered_block.commitment.block_height == expected_height,
        0 <= k < filtered_block.transactions@.len(),
        forall|i: int|
            0 <= i < k ==> !call_ensures(
                spam_filter.is_spam,
                (&#[trigger] filtered_block.transactions@[i],),
                true,
            ),
        !call_ensures(spam_filter.is_spam, (&filtered_block.transactions@[k],), false),
        block_outcome(filtered_block, expected_height, spam_filter, outcome),
    ensures
        outcome == Some(
            "Filtered block transaction "@ + decimal(k as nat) + " failed local spam filter"@,
        ),
{
    let transactions = filtered_block.transactions;
    law_spam_is_refused(filtered_block, expected_height, spam_filter, k, outcome);
    let message = outcome->0;
    law_refused_block(filtered_block, expected_height, spam_filter, message);
    if spam_filter.spam_outcome(transactions, None) {
        law_passed_second_look(spam_filter, transactions);
    }
    law_failed_second_look(spam_filter, transactions, message);
    assert(!call_ensures(spam_filter.is_spam, (&transactions@[k],), false));
}

/// A block of which the filter calls no transaction spam, but always lets some go
/// when it filters them together, is refused for that, whatever the block hash.
pub proof fn law_lost_transactions_are_refused<S, B>(
    filtered_block: FilteredBlock,
    expected_height: Natural,
    spam_filter: SpamFilter<S, B>,
    outcome: Option<Seq<char>>,
) where
    S: Fn(&Transaction) -> bool,
    B: Fn(&Vec<Transaction>) -> (Vec<Transaction>, SpamSummary),

    requires
        filtered_block.commitment.block_height == expected_height,
        forall|i: int|
            0 <= i < filtered_block.transactions@.len() ==> !call_ensures(
                spam_filter.is_spam,
                (&#[trigger] filtered_block.transactions@[i],),
                true,
            ),
        forall|retained: Vec<Transaction>, summary: SpamSummary| #[trigger]
            call_ensures(
                spam_filter.filter_block,
                (&filtered_block.transactions,),
                (retained, summary),
            ) ==> retained@.len() != filtered_block.transactions@.len(),
        block_outcome(filtered_block, expected_height, spam_filter, outcome),
    ensures
        outcome == Some("Filtered block transactions fail local spam re-filter"@),
{
    if spam_filter.spam_outcome(filtered_block.transactions, None) {
        law_passed_second_look(spam_filter, filtered_block.transactions);
    }
    if outcome is None {
        law_accepted_block(filtered_block, expected_height, spam_filter);
    }
    law_refused_block(filtered_block, expected_height, spam_filter, outcome->0);
    law_failed_second_look(spam_filter, filtered_block.transactions, outcome->0);
}

/// A block of which the filter calls no transaction spam and lets none go, but
/// always counts some as spam, is refused for that, whatever the block hash.
pub proof fn law_counted_spam_is_refused<S, B>(
    filtered_block: FilteredBlock,
    expected_height: Natural,
    spam_filter: SpamFilter<S, B>,
    outcome: Option<Seq<char>>,
) where
    S: Fn(&Transaction) -> bool,
    B: Fn(&Vec<Transaction>) -> (Vec<Transaction>, SpamSummary),

    requires
        filtered_block.commitment.block_height == expected_height,
        forall|i: int|
            0 <= i < filtered_block.transactions@.len() ==> !call_ensures(
                spam_filter.is_spam,
                (&#[trigger] filtered_block.transactions@[i],),
                true,
            ),
        forall|retained: Vec<Transaction>, summary: SpamSummary| #[trigger]
            call_ensures(
                spam_filter.filter_block,
                (&filtered_block.transactions,),
                (retained, summary),
            ) ==> retained@.len() == filtered_block.transactions@.len() && summary.filtered_count
                != 0,
        block_outcome(filtered_block, expected_height, spam_filter, outcome),
    ensures
        outcome == Some("Filtered block included transactions classified as spam locally"@),
{
    if spam_filter.spam_outcome(filtered_block.transactions, None) {
        law_passed_second_look(spam_filter, filtered_block.transactions);
    }
    if outcome is None {
        law_accepted_block(filtered_block, expected_height, spam_filter);
    }
    law_refused_block(filtered_block, expected_height, spam_filter, outcome->0);
    law_failed_second_look(spam_filter, filtered_block.transactions, outcome->0);
}

/// The height comes first: a commitment at another height is refused for that
/// reason, whatever the filter and the hash.
pub proof fn law_height_comes_first<S, B>(
    filtered_block: FilteredBlock,
    expected_height: Natural,
    spam_filter: SpamFilter<S, B>,
    outcome: Option<Seq<char>>,
) where
    S: Fn(&Transaction) -> bool,
    B: Fn(&Vec<Transaction>) -> (Vec<Transaction>, SpamSummary),

    requires
        filtered_block.commitment.block_height != expected_height,
        block_outcome(filtered_block, expected_height, spam_filter, outcome),
    ensures
        outcome == Some(
            "Commitment height mismatch: expected "@ + decimal(expected_height as nat) + ", got "@
                + decimal(filtered_block.commitment.block_height as nat),
        ),
{
}

/// A commitment to another block than the one of the header is refused; where
/// the height is as expected, no transaction is called spam and none is lost, the
/// message gives both hashes.
pub proof fn law_foreign_commitment_is_refused<S, B>(
    filtered_block: FilteredBlock,
    expected_height: Natural,
    spam_filter: SpamFilter<S, B>,
    outcome: Option<Seq<char>>,
) where
    S: Fn(&Transaction) -> bool,
    B: Fn(&Vec<Transaction>) -> (Vec<Transaction>, SpamSummary),

    requires
        filtered_block.commitment.block_hash@ != block_hash(filtered_block.header),
        block_outcome(filtered_block, expected_height, spam_filter, outcome),
    ensures
        outcome is Some,
        filtered_block.commitment.block_height == expected_height && (forall|i: int|
            0 <= i < filtered_block.transactions@.len() ==> !call_ensures(
                spam_filter.is_spam,
                (&#[trigger] filtered_block.transactions@[i],),
                true,
            )) && (forall|retained: Vec<Transaction>, summary: SpamSummary| #[trigger]
            call_ensures(
                spam_filter.filter_block,
                (&filtered_block.transactions,),
                (retained, summary),
            ) ==> retained@.len() == filtered_block.transactions@.len() && summary.filtered_count
                == 0) ==> outcome == Some(
            "Block hash mismatch: expected "@ + byte_list(block_hash(filtered_block.header))
                + ", got "@ + byte_list(filtered_block.commitment.block_hash@),
        ),
{
    if outcome is None {
        law_accepted_block(filtered_block, expected_height, spam_filter);
    }
    let message = outcome->0;
    law_refused_block(filtered_block, expected_height, spam_filter, message);
    if spam_filter.spam_outcome(filtered_block.transactions, Some(message)) {
        law_failed_second_look(spam_filter, filtered_block.transactions, message);
    }
}

/// A commitment to one block does not pass for another: a block is accepted with
/// the hash of a header `other` in its commitment only if `other` is its own
/// header, or else two different byte strings share a SHA-256 digest. The numbers
/// of both headers fit their four bytes.
pub proof fn law_commitment_binds_the_header<S, B>(
    filtered_block: FilteredBlock,
    expected_height: Natural,
    spam_filter: SpamFilter<S, B>,
    other: BlockHeader,
) where
    S: Fn(&Transaction) -> bool,
    B: Fn(&Vec<Transaction>) -> (Vec<Transaction>, SpamSummary),

    requires
        i32::MIN <= filtered_block.header.version <= i32::MAX,
        filtered_block.header.timestamp <= u32::MAX,
        filtered_block.header.bits <= u32::MAX,
        filtered_block.header.nonce <= u32::MAX,
        i32::MIN <= other.version <= i32::MAX,
        other.timestamp <= u32::MAX,
        other.bits <= u32::MAX,
        other.nonce <= u32::MAX,
        filtered_block.commitment.block_hash@ == block_hash(other),
        block_outcome(filtered_block, expected_height, spam_filter, None),
    ensures
        filtered_block.header == other || exists|x: Seq<u8>, y: Seq<u8>|
            x != y && #[trigger] sha256_digest(x) == #[trigger] sha256_digest(y),
{
    law_accepted_block(filtered_block, expected_height, spam_filter);
    if filtered_block.header != other {
        law_equal_block_hashes_need_a_collision(filtered_block.header, other);
    }
}

/// A filter that answers the same each time makes the checks answer the same
/// each time: of one block there are no two outcomes.
pub proof fn law_settled_filter_settles_the_outcome<S, B>(
    filtered_block: FilteredBlock,
    expected_height: Natural,
    spam_filter: SpamFilter<S, B>,
    first: Option<Seq<char>>,
    second: Option<Seq<char>>,
) where
    S: Fn(&Transaction) -> bool,
    B: Fn(&Vec<Transaction>) -> (Vec<Transaction>, SpamSummary),

    requires
        spam_filter.settled_on(filtered_block.transactions),
        block_outcome(filtered_block, expected_height, spam_filter, first),
        block_outcome(filtered_block, expected_height, spam_filter, second),
    ensures
        first == second,
{
    let transactions = filtered_block.transactions;
    assert forall|a: Option<Seq<char>>, b: Option<Seq<char>>| #[trigger]
        spam_filter.spam_outcome(transactions, a) && #[trigger] spam_filter.spam_outcome(
            transactions,
            b,
        ) implies a == b by {
        law_settled_filter_settles_the_second_look(spam_filter, transactions, a, b);
    }
}

/// The block's own spam summary and transaction indices are informational, and
/// so is what the commitment says of the UTXO set itself: they change no outcome.
pub proof fn law_informational_fields<S, B>(
    a: FilteredBlock,
    b: FilteredBlock,
    expected_height: Natural,
    spam_filter: SpamFilter<S, B>,
    outcome: Option<Seq<char>>,
) where
    S: Fn(&Transaction) -> bool,
    B: Fn(&Vec<Transaction>) -> (Vec<Transaction>, SpamSummary),

    requires
        a.header == b.header,
        a.transactions == b.transactions,
        a.commitment.block_height == b.commitment.block_height,
        a.commitment.block_hash == b.commitment.block_hash,
    ensures
        block_outcome(a, expected_height, spam_filter, outcome) == block_outcome(
            b,
            expected_height,
            spam_filter,
            outcome,
        ),
{
}

} // verus!
