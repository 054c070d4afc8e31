//! The local spam filter, and its second look at a filtered block.

use crate::text::{decimal, push_decimal};
use crate::types::{
    objection, FilteredBlock, SpamSummary, UtxoCommitmentError, UtxoCommitmentResult,
};
use blvm_consensus::types::Transaction;
use vstd::prelude::*;
use vstd::string::StringExecFns;

verus! {

/// A spam filter, given by its two decisions.
///
/// Nothing is taken for granted of either: they may disagree with each other,
/// and each with itself from one call to the next.
pub struct SpamFilter<S, B> {
    /// Whether a transaction is spam.
    pub is_spam: S,
    /// The transactions of a block that are kept, and the summary of the rest.
    pub filter_block: B,
}

impl<S, B> SpamFilter<S, B> where
    S: Fn(&Transaction) -> bool,
    B: Fn(&Vec<Transaction>) -> (Vec<Transaction>, SpamSummary),
 {
    /// Both decisions can be asked of these transactions.
    pub open spec fn accepts(self, transactions: Vec<Transaction>) -> bool {
        &&& forall|i: int|
            0 <= i < transactions@.len() ==> call_requires(
                self.is_spam,
                (&#[trigger] transactions@[i],),
            )
        &&& call_requires(self.filter_block, (&transactions,))
    }

    /// The filter may call `tx` spam.
    pub open spec fn may_flag(self, tx: Transaction) -> bool {
        call_ensures(self.is_spam, (&tx,), true)
    }

    /// The filter may let `tx` pass.
    pub open spec fn may_clear(self, tx: Transaction) -> bool {
        call_ensures(self.is_spam, (&tx,), false)
    }

    /// The filter may let each of the first `n` transactions pass.
    pub open spec fn may_clear_first(self, transactions: Seq<Transaction>, n: int) -> bool {
        forall|i: int| 0 <= i < n ==> self.may_clear(#[trigger] transactions[i])
    }

    /// The filter may keep `retained` of `transactions` and report `summary`.
    pub open spec fn may_retain(
        self,
        transactions: Vec<Transaction>,
        retained: Vec<Transaction>,
        summary: SpamSummary,
    ) -> bool {
        call_ensures(self.filter_block, (&transactions,), (retained, summary))
    }

    /// The transaction at `k` is the first that the filter called spam.
    pub open spec fn may_flag_first(self, transactions: Seq<Transaction>, k: int) -> bool {
        &&& 0 <= k < transactions.len()
        &&& self.may_clear_first(transactions, k)
        &&& self.may_flag(transactions[k])
    }

    /// The filter has one answer for each of these transactions, and one count
    /// for them all.
    pub open spec fn settled_on(self, transactions: Vec<Transaction>) -> bool {
        &&& forall|i: int|
            0 <= i < transactions@.len() ==> !(self.may_flag(#[trigger] transactions@[i])
                && self.may_clear(transactions@[i]))
        &&& forall|
            a: Vec<Transaction>,
            b: Vec<Transaction>,
            summary_a: SpamSummary,
            summary_b: SpamSummary,
        | #[trigger]
            self.may_retain(transactions, a, summary_a) && #[trigger] self.may_retain(
                transactions,
                b,
                summary_b,
            ) ==> a@.len() == b@.len() && summary_a.filtered_count == summary_b.filtered_count
    }

    /// `outcome` is a possible end of the second look: the first transaction
    /// called spam is objected to; where there is none, what filtering them all
    /// at once had to say decides.
    pub open spec fn spam_outcome(
        self,
        transactions: Vec<Transaction>,
        outcome: Option<Seq<char>>,
    ) -> bool {
        ||| exists|k: int| #[trigger]
            self.may_flag_first(transactions@, k) && outcome == Some(spam_message(k as nat))
        ||| self.may_clear_first(transactions@, transactions@.len() as int) && exists|
            retained: Vec<Transaction>,
            summary: SpamSummary,
        | #[trigger]
            self.may_retain(transactions, retained, summary) && outcome == refilter_objection(
                transactions@.len(),
                retained@.len(),
                summary.filtered_count,
            )
    }
}

/// The message for a transaction that the local filter calls spam.
pub open spec fn spam_message(index: nat) -> Seq<char> {
    "Filtered block transaction "@ + decimal(index) + " failed local spam filter"@
}

/// What is to object to the transaction at `index`.
pub open spec fn verdict_objection(index: nat, is_spam: bool) -> Option<Seq<char>> {
    if is_spam {
        Some(spam_message(index))
    } else {
        None
    }
}

/// What is to object to a block of `total` transactions of which filtering
/// again kept `retained` and counted `filtered_count` as spam.
pub open spec fn refilter_objection(
    total: nat,
    retained: nat,
    filtered_count: u32,
) -> Option<Seq<char>> {
    if retained != total {
        Some("Filtered block transactions fail local spam re-filter"@)
    } else if filtered_count != 0 {
        Some("Filtered block included transactions classified as spam locally"@)
    } else {
        None
    }
}

/// Verify that the local filter did not call the transaction at `index` spam.
pub fn verify_transaction_verdict(index: usize, is_spam: bool) -> (res: UtxoCommitmentResult<()>)
    ensures
        objection(res) == verdict_objection(index as nat, is_spam),
        res is Ok <==> !is_spam,
{
    if !is_spam {
        return Ok(());
    }
    let mut message = String::from_str("Filtered block transaction ");
    push_decimal(&mut message, index as u64);
    message.append(" failed local spam filter");
    Err(UtxoCommitmentError::VerificationFailed(message))
}

/// Verify that filtering a block of `total` transactions again kept them all.
pub fn verify_refilter(total: usize, retained: usize, summary: &SpamSummary) -> (res:
    UtxoCommitmentResult<()>)
    ensures
        objection(res) == refilter_objection(
            total as nat,
            retained as nat,
            summary.filtered_count,
        ),
        res is Ok <==> retained == total && summary.filtered_count == 0,
{
    if retained != total {
        return Err(
            UtxoCommitmentError::VerificationFailed(
                String::from_str("Filtered block transactions fail local spam re-filter"),
            ),
        );
    }
    if summary.filtered_count != 0 {
        return Err(
            UtxoCommitmentError::VerificationFailed(
                String::from_str("Filtered block included transactions classified as spam locally"),
            ),
        );
    }
    Ok(())
}

/// Re-apply the spam filter to a peer-supplied filtered block.
///
/// The wire `FilteredBlock` carries only non-spam transactions; we verify each
/// included transaction passes the local filter. Summary counts for removed spam
/// cannot be checked without the full block, so the block's own summary is not
/// looked at; peers must not send spam transactions.
pub fn verify_filtered_block_spam_filtering<S, B>(
    filtered_block: &FilteredBlock,
    spam_filter: &SpamFilter<S, B>,
) -> (res: UtxoCommitmentResult<()>) where
    S: Fn(&Transaction) -> bool,
    B: Fn(&Vec<Transaction>) -> (Vec<Transaction>, SpamSummary),

    requires
        spam_filter.accepts(filtered_block.transactions),
    ensures
        spam_filter.spam_outcome(filtered_block.transactions, objection(res)),
        res is Ok ==> forall|i: int|
            0 <= i < filtered_block.transactions@.len() ==> call_ensures(
                spam_filter.is_spam,
                (&#[trigger] filtered_block.transactions@[i],),
                false,
            ),
{
    let transactions = &filtered_block.transactions;
    let mut index: usize = 0;
    while index < transactions.len()
        invariant
            index <= transactions@.len(),
            *transactions == filtered_block.transactions,
            spam_filter.accepts(*transactions),
            spam_filter.may_clear_first(transactions@, index as int),
        decreases transactions@.len() - index,
    {
        let is_spam = (spam_filter.is_spam)(&transactions[index]);
        let verdict = verify_transaction_verdict(index, is_spam);
        if verdict.is_err() {
            assert(spam_filter.may_flag_first(transactions@, index as int));
            return verdict;
        }
        index = index + 1;
    }

    let (retained, recomputed_summary) = (spam_filter.filter_block)(transactions);
    assert(spam_filter.may_retain(*transactions, retained, recomputed_summary));
    assert forall|i: int| 0 <= i < transactions@.len() implies call_ensures(
        spam_filter.is_spam,
        (&#[trigger] transactions@[i],),
        false,
    ) by {
        assert(spam_filter.may_clear(transactions@[i]));
    }
    verify_refilter(transactions.len(), retained.len(), &recomputed_summary)
}

/// A transaction is objected to exactly where it is spam, and by its index.
pub proof fn law_verdict_objection(index: nat, is_spam: bool)
    ensures
        verdict_objection(index, is_spam) is Some <==> is_spam,
        is_spam ==> verdict_objection(index, is_spam) == Some(
            "Filtered block transaction "@ + decimal(index) + " failed local spam filter"@,
        ),
{
}

/// Filtering again is passed only by a block that loses nothing and counts no
/// spam; what was lost is objected to before what was counted.
pub proof fn law_refilter_objection(total: nat, retained: nat, filtered_count: u32)
    ensures
        refilter_objection(total, retained, filtered_count) is None <==> retained == total
            && filtered_count == 0,
        retained != total ==> refilter_objection(total, retained, filtered_count) == Some(
            "Filtered block transactions fail local spam re-filter"@,
        ),
        retained == total && filtered_count != 0 ==> refilter_objection(
            total,
            retained,
            filtered_count,
        ) == Some("Filtered block included transactions classified as spam locally"@),
{
}

/// The second look is passed only if the filter answered of every transaction
/// that it is no spam, and then, asked of the whole block, kept as many as it was
/// given and counted none.
pub proof fn law_passed_second_look<S, B>(
    spam_filter: SpamFilter<S, B>,
    transactions: Vec<Transaction>,
) where
    S: Fn(&Transaction) -> bool,
    B: Fn(&Vec<Transaction>) -> (Vec<Transaction>, SpamSummary),

    requires
        spam_filter.spam_outcome(transactions, None),
    ensures
        forall|i: int|
            0 <= i < transactions@.len() ==> call_ensures(
                spam_filter.is_spam,
                (&#[trigger] transactions@[i],),
                false,
            ),
        exists|retained: Vec<Transaction>, summary: SpamSummary| #[trigger]
            call_ensures(spam_filter.filter_block, (&transactions,), (retained, summary))
                && retained@.len() == transactions@.len() && summary.filtered_count == 0,
{
    assert forall|i: int| 0 <= i < transactions@.len() implies call_ensures(
        spam_filter.is_spam,
        (&#[trigger] transactions@[i],),
        false,
    ) by {
        assert(spam_filter.may_clear(transactions@[i]));
    }
    let (retained, summary) = choose|retained: Vec<Transaction>, summary: SpamSummary| #[trigger]
        spam_filter.may_retain(transactions, retained, summary) && refilter_objection(
            transactions@.len(),
            retained@.len(),
            summary.filtered_count,
        ) is None;
    assert(call_ensures(spam_filter.filter_block, (&transactions,), (retained, summary)));
}

/// The second look fails only for what the filter answered: that a transaction is
/// spam, after it let all before it pass; or, of a block with no such
/// transaction, that some are to go, or else that some were counted. Each has its
/// own message.
pub proof fn law_failed_second_look<S, B>(
    spam_filter: SpamFilter<S, B>,
    transactions: Vec<Transaction>,
    message: Seq<char>,
) where
    S: Fn(&Transaction) -> bool,
    B: Fn(&Vec<Transaction>) -> (Vec<Transaction>, SpamSummary),

    requires
        spam_filter.spam_outcome(transactions, Some(message)),
    ensures
        ({
            ||| exists|k: int|
                0 <= k < transactions@.len() && call_ensures(
                    spam_filter.is_spam,
                    (&#[trigger] transactions@[k],),
                    true,
                ) && (forall|i: int|
                    0 <= i < k ==> call_ensures(
                        spam_filter.is_spam,
                        (&#[trigger] transactions@[i],),
                        false,
                    )) && message == "Filtered block transaction "@ + decimal(k as nat)
                    + " failed local spam filter"@
            ||| (forall|i: int|
                0 <= i < transactions@.len() ==> call_ensures(
                    spam_filter.is_spam,
                    (&#[trigger] transactions@[i],),
                    false,
                )) && exists|retained: Vec<Transaction>, summary: SpamSummary| #[trigger]
                call_ensures(spam_filter.filter_block, (&transactions,), (retained, summary)) && (
                if retained@.len() != transactions@.len() {
                    message == "Filtered block transactions fail local spam re-filter"@
                } else {
                    summary.filtered_count != 0 && message
                        == "Filtered block included transactions classified as spam locally"@
                })
        }),
{
    let outcome: Option<Seq<char>> = Some(message);
    let by_verdict = exists|k: int| #[trigger]
        spam_filter.may_flag_first(transactions@, k) && outcome == Some(spam_message(k as nat));
    if by_verdict {
        let k = choose|k: int| #[trigger]
            spam_filter.may_flag_first(transactions@, k) && outcome == Some(
                spam_message(k as nat),
            );
        assert(spam_filter.may_flag(transactions@[k]));
        assert forall|i: int| 0 <= i < k implies call_ensures(
            spam_filter.is_spam,
            (&#[trigger] transactions@[i],),
            false,
        ) by {
            assert(spam_filter.may_clear(transactions@[i]));
        }
    } else {
        assert forall|i: int| 0 <= i < transactions@.len() implies call_ensures(
            spam_filter.is_spam,
            (&#[trigger] transactions@[i],),
            false,
        ) by {
            assert(spam_filter.may_clear(transactions@[i]));
        }
        let (retained, summary) = choose|
            retained: Vec<Transaction>,
            summary: SpamSummary,
        | #[trigger]
            spam_filter.may_retain(transactions, retained, summary) && outcome
                == refilter_objection(
                transactions@.len(),
                retained@.len(),
                summary.filtered_count,
            );
        assert(call_ensures(spam_filter.filter_block, (&transactions,), (retained, summary)));
    }
}

/// A filter that answers the same each time has one outcome of its second look.
pub proof fn law_settled_filter_settles_the_second_look<S, B>(
    spam_filter: SpamFilter<S, B>,
    transactions: Vec<Transaction>,
    first: Option<Seq<char>>,
    second: Option<Seq<char>>,
) where
    S: Fn(&Transaction) -> bool,
    B: Fn(&Vec<Transaction>) -> (Vec<Transaction>, SpamSummary),

    requires
        spam_filter.settled_on(transactions),
        spam_filter.spam_outcome(transactions, first),
        spam_filter.spam_outcome(transactions, second),
    ensures
        first == second,
{
    assert forall|j: int, k: int| #[trigger]
        spam_filter.may_flag_first(transactions@, j) && #[trigger] spam_filter.may_flag_first(
            transactions@,
            k,
        ) implies j == k by {
        if j < k {
            assert(spam_filter.may_clear(transactions@[j]));
        }
        if k < j {
            assert(spam_filter.may_clear(transactions@[k]));
        }
    }
    assert forall|k: int| #[trigger]
        spam_filter.may_flag_first(transactions@, k) implies !spam_filter.may_clear_first(
        transactions@,
        transactions@.len() as int,
    ) by {
        assert(!spam_filter.may_clear(transactions@[k]));
    }
}

} // verus!
