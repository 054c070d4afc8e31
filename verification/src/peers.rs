//! One round of requests for a UTXO set, peer by peer.

use crate::types::{HashType, Natural};
use vstd::prelude::*;

verus! {

/// A request for the UTXO set after one block, to be sent to `peer_id`.
#[derive(Debug, Clone, Copy)]
pub struct UtxoSetRequest<'a> {
    pub peer_id: &'a str,
    pub height: Natural,
    pub block_hash: HashType,
}

/// A round as a whole: whom it asks, for what, and the replies so far.
pub struct RoundView<R> {
    pub peers: Seq<String>,
    pub height: Natural,
    pub block_hash: HashType,
    pub results: Seq<(String, R)>,
}

impl<R> RoundView<R> {
    /// The round before its first request.
    pub open spec fn start(peers: Seq<String>, height: Natural, block_hash: HashType) -> Self {
        RoundView { peers, height, block_hash, results: Seq::empty() }
    }

    /// The results stand in the order of the peers, one for each peer asked.
    pub open spec fn in_order(self) -> bool {
        &&& self.results.len() <= self.peers.len()
        &&& forall|i: int|
            0 <= i < self.results.len() ==> (#[trigger] self.results[i]).0 == self.peers[i]
    }

    /// Every peer has been asked.
    pub open spec fn done(self) -> bool {
        self.results.len() >= self.peers.len()
    }

    /// The round after `reply` came from the next peer.
    pub open spec fn after(self, reply: R) -> Self {
        RoundView {
            results: self.results.push((self.peers[self.results.len() as int], reply)),
            ..self
        }
    }

    /// The round after `replies` came, one after the other.
    pub open spec fn after_all(
        self,
        replies: Seq<R>,
    ) -> Self
        decreases replies.len(),
    {
        if replies.len() == 0 {
            self
        } else {
            self.after_all(replies.drop_last()).after(replies.last())
        }
    }
}

/// The state of a round: `next_request` says whom to ask, `record_reply` takes
/// the reply, of whatever type `R` it is, and `into_results` hands all replies
/// out.
pub struct UtxoSetRound<'a, R> {
    peers: &'a [String],
    height: Natural,
    block_hash: HashType,
    results: Vec<(String, R)>,
}

impl<'a, R> View for UtxoSetRound<'a, R> {
    type V = RoundView<R>;

    closed spec fn view(&self) -> RoundView<R> {
        RoundView {
            peers: self.peers@,
            height: self.height,
            block_hash: self.block_hash,
            results: self.results@,
        }
    }
}

impl<'a, R> UtxoSetRound<'a, R> {
    #[verifier::type_invariant]
    spec fn well_formed(self) -> bool {
        self@.in_order()
    }

    /// A round that asks each of `peers` for the UTXO set after one block.
    pub fn new(peers: &'a [String], height: Natural, block_hash: HashType) -> (round: Self)
        ensures
            round@ == RoundView::<R>::start(peers@, height, block_hash),
            round@.peers == peers@,
            round@.height == height,
            round@.block_hash == block_hash,
            round@.results == Seq::<(String, R)>::empty(),
            round@.in_order(),
    {
        UtxoSetRound { peers, height, block_hash, results: Vec::new() }
    }

    /// The request to send next, or `None` once every peer has been asked.
    pub fn next_request(&self) -> (request: Option<UtxoSetRequest<'a>>)
        ensures
            request is None <==> self@.done(),
            request is None <==> self@.results.len() >= self@.peers.len(),
            request matches Some(request) ==> {
                &&& request.peer_id@ == self@.peers[self@.results.len() as int]@
                &&& request.height == self@.height
                &&& request.block_hash == self@.block_hash
            },
    {
        if self.results.len() < self.peers.len() {
            Some(
                UtxoSetRequest {
                    peer_id: self.peers[self.results.len()].as_str(),
                    height: self.height,
                    block_hash: self.block_hash,
                },
            )
        } else {
            None
        }
    }

    /// Takes the reply to the request that `next_request` gave. An error is a
    /// reply like any other: the round goes on.
    pub fn record_reply(&mut self, reply: R)
        requires
            !old(self)@.done(),
        ensures
            final(self)@ == old(self)@.after(reply),
            final(self)@.peers == old(self)@.peers,
            final(self)@.height == old(self)@.height,
            final(self)@.block_hash == old(self)@.block_hash,
            final(self)@.results == old(self)@.results.push(
                (old(self)@.peers[old(self)@.results.len() as int], reply),
            ),
            final(self)@.in_order(),
    {
        proof {
            use_type_invariant(&*self);
        }
        let peer_id = self.peers[self.results.len()].clone();
        let mut results = Vec::new();
        std::mem::swap(&mut results, &mut self.results);
        results.push((peer_id, reply));
        self.results = results;
    }

    /// The replies in the order of the peers, each with the peer that it came
    /// from.
    pub fn into_results(self) -> (results: Vec<(String, R)>)
        ensures
            results@ == self@.results,
            self@.in_order(),
    {
        proof {
            use_type_invariant(&self);
        }
        self.results
    }
}

/// After as many replies as there are peers, or fewer, the results are the
/// peers in their order, each with the reply at its own place; no reply, an
/// error included, drops another.
pub proof fn law_results_pair_peers_with_replies<R>(
    peers: Seq<String>,
    height: Natural,
    block_hash: HashType,
    replies: Seq<R>,
)
    requires
        replies.len() <= peers.len(),
    ensures
        ({
            let round = RoundView::<R>::start(peers, height, block_hash).after_all(replies);
            &&& round.in_order()
            &&& round.peers == peers
            &&& round.results.len() == replies.len()
            &&& forall|i: int|
                0 <= i < replies.len() ==> #[trigger] round.results[i] == (peers[i], replies[i])
            &&& round.done() <==> replies.len() == peers.len()
        }),
    decreases replies.len(),
{
    law_request_stays_the_same(peers, height, block_hash, replies);
    if replies.len() > 0 {
        law_results_pair_peers_with_replies(peers, height, block_hash, replies.drop_last());
        law_request_stays_the_same(peers, height, block_hash, replies.drop_last());
    }
}

/// A round with a peer left to ask is not done, and a reply ends on the list of
/// results, beside the next peer, with all that stood before unchanged.
pub proof fn law_reply_goes_to_the_next_peer<R>(round: RoundView<R>, reply: R)
    requires
        round.results.len() < round.peers.len(),
    ensures
        !round.done(),
        round.after(reply).peers == round.peers,
        round.after(reply).height == round.height,
        round.after(reply).block_hash == round.block_hash,
        round.after(reply).results.len() == round.results.len() + 1,
        round.after(reply).results.last() == (round.peers[round.results.len() as int], reply),
        round.after(reply).results.drop_last() == round.results,
        round.after(reply).done() <==> round.results.len() + 1 == round.peers.len(),
{
    assert(round.after(reply).results.drop_last() == round.results);
}

/// Every peer is asked for the same height and block, and the list of peers
/// stays as it was given, whatever the replies.
pub proof fn law_request_stays_the_same<R>(
    peers: Seq<String>,
    height: Natural,
    block_hash: HashType,
    replies: Seq<R>,
)
    ensures
        ({
            let round = RoundView::<R>::start(peers, height, block_hash).after_all(replies);
            &&& round.peers == peers
            &&& round.height == height
            &&& round.block_hash == block_hash
        }),
    decreases replies.len(),
{
    if replies.len() > 0 {
        law_request_stays_the_same(peers, height, block_hash, replies.drop_last());
    }
}

} // verus!
