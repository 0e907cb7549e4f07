use vstd::prelude::*;

use crate::block::Block;
use crate::consensus::{
    contains_index, insert_index, ConsensusMessage, ConsensusRequirements, ConsensusResult,
};
use crate::votes::{
    find_entry, lemma_table_absent, lemma_table_lookup, record_vote, table_view, table_wf,
    voter_list, with_vote, VoteEntry, VoteSet,
};

verus! {

/// Weight of one replica, in thousandths.
pub const UNIT_WEIGHT: u64 = 1000;

/// Replicas `0..DEFAULT_NODES` start with weight `UNIT_WEIGHT`.
pub const DEFAULT_NODES: usize = 10;

/// A replica's voting weight, in thousandths.
pub struct NodeWeight {
    pub node_id: usize,
    pub weight: u64,
}

/// Weight of `n`: the last entry for it wins; a replica without one weighs 0.
pub open spec fn weight_of(w: Seq<NodeWeight>, n: usize) -> nat
    decreases w.len(),
{
    if w.len() == 0 {
        0
    } else if w.last().node_id == n {
        w.last().weight as nat
    } else {
        weight_of(w.drop_last(), n)
    }
}

/// Sum of the weights of the listed voters.
pub open spec fn weight_sum(w: Seq<NodeWeight>, voters: Seq<usize>) -> nat
    decreases voters.len(),
{
    if voters.len() == 0 {
        0
    } else {
        weight_sum(w, voters.drop_last()) + weight_of(w, voters.last())
    }
}

/// The key under which the votes on a block are kept (view 0: no views here).
pub open spec fn vote_key_of(block_index: u64) -> (u64, u64) {
    (0, block_index)
}

/// Weighted voting: a block commits once the weights of the replicas that
/// voted for it add up to the threshold.
pub struct QuorumlessConsensus {
    pub node_id: usize,
    pub node_weights: Vec<NodeWeight>,
    pub votes: Vec<VoteSet>,
    pub committed: Vec<u64>,
    pub threshold_weight: u64,
}

pub struct QuorumlessView {
    pub weights: Seq<NodeWeight>,
    pub votes: Map<(u64, u64), VoteEntry>,
    pub committed: Set<u64>,
}

impl View for QuorumlessConsensus {
    type V = QuorumlessView;

    open spec fn view(&self) -> QuorumlessView {
        QuorumlessView {
            weights: self.node_weights@,
            votes: table_view(self.votes@),
            committed: self.committed@.to_set(),
        }
    }
}

/// State after `sender` votes for the block among replicas weighted by
/// `q.weights`: the block commits once the voters' weight reaches `threshold`.
pub open spec fn after_weighted_vote(
    q: QuorumlessView,
    block_index: u64,
    block_hash: Seq<char>,
    sender: usize,
    threshold: nat,
) -> QuorumlessView {
    let v = with_vote(q.votes, vote_key_of(block_index), block_hash, sender);
    QuorumlessView {
        votes: v,
        committed: if weight_sum(q.weights, voter_list(v, vote_key_of(block_index))) >= threshold {
            q.committed.insert(block_index)
        } else {
            q.committed
        },
        ..q
    }
}

/// A vote handled twice leaves the replica as handling it once.
pub proof fn lemma_weighted_vote_idempotent(
    q: QuorumlessView,
    block_index: u64,
    block_hash: Seq<char>,
    sender: usize,
    threshold: nat,
)
    ensures
        after_weighted_vote(
            after_weighted_vote(q, block_index, block_hash, sender, threshold),
            block_index,
            block_hash,
            sender,
            threshold,
        ) == after_weighted_vote(q, block_index, block_hash, sender, threshold),
{
    let key = vote_key_of(block_index);
    crate::pbft::lemma_vote_idempotent(q.votes, key, block_hash, sender);
    let q1 = after_weighted_vote(q, block_index, block_hash, sender, threshold);
    if weight_sum(q.weights, voter_list(q1.votes, key)) >= threshold {
        assert(q1.committed.insert(block_index) =~= q1.committed);
    }
    assert(after_weighted_vote(q1, block_index, block_hash, sender, threshold) =~= q1);
}

impl QuorumlessConsensus {
    pub open spec fn wf(&self) -> bool {
        table_wf(self.votes@) && self.committed@.no_duplicates()
    }

    /// The weight of the replicas that voted for block `block_index`.
    pub open spec fn voted_weight(&self, block_index: u64) -> nat {
        weight_sum(self.node_weights@, voter_list(table_view(self.votes@), vote_key_of(block_index)))
    }

    /// Replicas `0..DEFAULT_NODES` weigh `UNIT_WEIGHT` each; `threshold_weight`
    /// is in thousandths too.
    pub fn new(node_id: usize, threshold_weight: u64) -> (r: QuorumlessConsensus)
        ensures
            r.wf(),
            r@.votes == Map::<(u64, u64), VoteEntry>::empty(),
            r@.committed == Set::<u64>::empty(),
            forall|n: usize| #[trigger] weight_of(r@.weights, n) == if n < DEFAULT_NODES {
                UNIT_WEIGHT as nat
            } else {
                0
            },
            r.node_id == node_id,
            r.threshold_weight == threshold_weight,
    {
        let mut weights: Vec<NodeWeight> = Vec::new();
        let mut i: usize = 0;
        while i < DEFAULT_NODES
            invariant
                i <= DEFAULT_NODES,
                forall|n: usize| #[trigger] weight_of(weights@, n) == if n < i {
                    UNIT_WEIGHT as nat
                } else {
                    0
                },
            decreases DEFAULT_NODES - i,
        {
            let ghost before = weights@;
            weights.push(NodeWeight { node_id: i, weight: UNIT_WEIGHT });
            proof {
                assert(weights@.drop_last() =~= before);
                assert forall|n: usize| #[trigger] weight_of(weights@, n) == if n < i + 1 {
                    UNIT_WEIGHT as nat
                } else {
                    0
                } by {
                    assert(weight_of(before, n) == if n < i {
                        UNIT_WEIGHT as nat
                    } else {
                        0
                    });
                }
            }
            i = i + 1;
        }
        let r = QuorumlessConsensus {
            node_id,
            node_weights: weights,
            votes: Vec::new(),
            committed: Vec::new(),
            threshold_weight,
        };
        assert(r@.committed =~= Set::<u64>::empty());
        r
    }

    /// Sets the weight of `node_id`, in thousandths.
    pub fn set_node_weight(&mut self, node_id: usize, weight: u64)
        ensures
            forall|n: usize| #[trigger] weight_of(final(self)@.weights, n) == if n == node_id {
                weight as nat
            } else {
                weight_of(old(self)@.weights, n)
            },
            final(self)@.votes == old(self)@.votes,
            final(self)@.committed == old(self)@.committed,
            final(self).votes == old(self).votes,
            final(self).committed == old(self).committed,
            final(self).node_id == old(self).node_id,
            final(self).threshold_weight == old(self).threshold_weight,
    {
        let ghost before = self.node_weights@;
        self.node_weights.push(NodeWeight { node_id, weight });
        assert(self.node_weights@.drop_last() =~= before);
    }

    /// Weight of `n`, in thousandths.
    pub fn node_weight(&self, n: usize) -> (r: u64)
        ensures
            r == weight_of(self@.weights, n),
    {
        let mut i: usize = self.node_weights.len();
        while i > 0
            invariant
                i <= self.node_weights@.len(),
                forall|k: int| i <= k < self.node_weights@.len() ==> #[trigger] self.node_weights@[k].node_id != n,
            decreases i,
        {
            if self.node_weights[i - 1].node_id == n {
                proof {
                    lemma_weight_of_suffix(self.node_weights@, i as int, n);
                    let s = self.node_weights@.subrange(0, i as int);
                    assert(s.last() == self.node_weights@[i - 1]);
                }
                return self.node_weights[i - 1].weight;
            }
            i = i - 1;
        }
        proof {
            lemma_weight_of_suffix(self.node_weights@, 0, n);
            assert(self.node_weights@.subrange(0, 0) =~= Seq::<NodeWeight>::empty());
        }
        0
    }

    /// The voted weight for block `block_index`, capped at `u64::MAX`.
    pub fn calculate_total_weight(&self, block_index: u64) -> (r: u64)
        requires
            self.wf(),
        ensures
            r as nat == if self.voted_weight(block_index) <= u64::MAX {
                self.voted_weight(block_index)
            } else {
                u64::MAX as nat
            },
    {
        let ghost list = voter_list(table_view(self.votes@), vote_key_of(block_index));
        let empty: Vec<usize> = Vec::new();
        let voters: &Vec<usize> = match find_entry(&self.votes, 0, block_index) {
            Some(i) => {
                proof {
                    lemma_table_lookup(self.votes@, i as int);
                }
                &self.votes[i].senders
            },
            None => {
                proof {
                    lemma_table_absent(self.votes@, vote_key_of(block_index));
                }
                &empty
            },
        };
        assert(voters@ == list);
        let mut total: u64 = 0;
        let mut i: usize = 0;
        while i < voters.len()
            invariant
                i <= voters@.len(),
                total as nat == if weight_sum(self.node_weights@, voters@.subrange(0, i as int))
                    <= u64::MAX {
                    weight_sum(self.node_weights@, voters@.subrange(0, i as int))
                } else {
                    u64::MAX as nat
                },
            decreases voters@.len() - i,
        {
            let w = self.node_weight(voters[i]);
            proof {
                assert(voters@.subrange(0, i + 1).drop_last() =~= voters@.subrange(0, i as int));
            }
            total = total.saturating_add(w);
            i = i + 1;
        }
        assert(voters@.subrange(0, voters@.len() as int) =~= voters@);
        total
    }

    fn vote(&mut self, block_index: u64, block_hash: &String, sender: usize) -> (reached: bool)
        requires
            old(self).wf(),
        ensures
            final(self).wf(),
            final(self).node_id == old(self).node_id,
            final(self).threshold_weight == old(self).threshold_weight,
            final(self)@ == after_weighted_vote(
                old(self)@,
                block_index,
                block_hash@,
                sender,
                old(self).threshold_weight as nat,
            ),
            reached == (final(self).voted_weight(block_index) >= old(self).threshold_weight),
    {
        let ghost q = self@;
        let _ = record_vote(&mut self.votes, 0, block_index, block_hash, sender);
        let total = self.calculate_total_weight(block_index);
        let reached = total >= self.threshold_weight;
        if reached {
            insert_index(&mut self.committed, block_index);
        }
        proof {
            assert(self@ =~= after_weighted_vote(
                q,
                block_index,
                block_hash@,
                sender,
                self.threshold_weight as nat,
            ));
        }
        reached
    }

    /// Casts this replica's vote for `block`; commits it once the voted
    /// weight reaches the threshold.
    pub fn propose(&mut self, block: &Block) -> (r: ConsensusResult)
        requires
            old(self).wf(),
        ensures
            final(self).wf(),
            final(self).node_id == old(self).node_id,
            final(self).threshold_weight == old(self).threshold_weight,
            final(self)@ == after_weighted_vote(
                old(self)@,
                block.index,
                block.hash@,
                old(self).node_id,
                old(self).threshold_weight as nat,
            ),
            final(self).voted_weight(block.index) >= old(self).threshold_weight ==> (
            r matches ConsensusResult::Committed(b) && b@ == block@),
            final(self).voted_weight(block.index) < old(self).threshold_weight ==> r is Pending,
    {
        let reached = self.vote(block.index, &block.hash, self.node_id);
        if reached {
            ConsensusResult::Committed(block.duplicate())
        } else {
            ConsensusResult::Pending
        }
    }

    /// Records the sender's vote; commits the block once the voted weight
    /// reaches the threshold. The outcome is `Pending`: a message does not
    /// carry the block.
    pub fn handle_message(&mut self, message: &ConsensusMessage) -> (r: ConsensusResult)
        requires
            old(self).wf(),
        ensures
            final(self).wf(),
            final(self).node_id == old(self).node_id,
            final(self).threshold_weight == old(self).threshold_weight,
            final(self)@ == after_weighted_vote(
                old(self)@,
                message.block_index,
                message.block_hash@,
                message.node_id,
                old(self).threshold_weight as nat,
            ),
            r is Pending,
    {
        let _ = self.vote(message.block_index, &message.block_hash, message.node_id);
        ConsensusResult::Pending
    }

    pub fn is_committed(&self, block_index: u64) -> (r: bool)
        ensures
            r == self@.committed.contains(block_index),
    {
        contains_index(&self.committed, block_index)
    }

    pub fn name(&self) -> (r: &'static str)
        ensures
            r@ == "Quorum-less (Weighted)"@,
    {
        proof {
            reveal_strlit("Quorum-less (Weighted)");
        }
        "Quorum-less (Weighted)"
    }

    pub fn requirements(&self) -> (r: ConsensusRequirements)
        ensures
            !r.requires_majority,
            r.min_nodes is None,
    {
        ConsensusRequirements {
            requires_majority: false,
            min_nodes: None,
            description: "Weighted voting consensus - requires the configured total weight (not majority count)".to_owned(),
        }
    }
}

/// With no entry for `n` at or after position `i`, the weight of `n` is
/// decided by the first `i` entries.
proof fn lemma_weight_of_suffix(w: Seq<NodeWeight>, i: int, n: usize)
    requires
        0 <= i <= w.len(),
        forall|k: int| i <= k < w.len() ==> #[trigger] w[k].node_id != n,
    ensures
        weight_of(w.subrange(0, i), n) == weight_of(w, n),
    decreases w.len() - i,
{
    if i < w.len() {
        assert(w.drop_last().len() == w.len() - 1);
        assert forall|k: int| i <= k < w.drop_last().len() implies #[trigger] w.drop_last()[k].node_id
            != n by {
            assert(w.drop_last()[k] == w[k]);
        }
        lemma_weight_of_suffix(w.drop_last(), i, n);
        assert(w.drop_last().subrange(0, i) =~= w.subrange(0, i));
        assert(w[w.len() - 1].node_id != n);
    } else {
        assert(w.subrange(0, i) =~= w);
    }
}

} // verus!
