use vstd::prelude::*;

use crate::block::Block;
use crate::clock::unix_now;
use crate::consensus::{
    contains_index, insert_index, ConsensusMessage, ConsensusRequirements, ConsensusResult,
};
use crate::votes::{
    lemma_with_vote_voters, record_vote, table_view, table_wf, voters, with_vote, VoteEntry,
    VoteSet,
};

verus! {

/// Epidemic diffusion. The replicas that have seen each block are kept in a
/// vote table under view 0 (gossip has no views), keyed by block index.
pub struct GossipConsensus {
    pub node_id: usize,
    pub seen: Vec<VoteSet>,
    pub committed: Vec<u64>,
    pub gossip_rounds: usize,
    pub fanout: usize,
    /// When this replica first saw each block: `(block index, seconds)`.
    pub first_seen: Vec<(u64, i64)>,
}

pub struct GossipView {
    pub seen: Map<(u64, u64), VoteEntry>,
    pub committed: Set<u64>,
}

impl View for GossipConsensus {
    type V = GossipView;

    open spec fn view(&self) -> GossipView {
        GossipView { seen: table_view(self.seen@), committed: self.committed@.to_set() }
    }
}

/// The key under which the seers of a block are kept.
pub open spec fn seen_key(block_index: u64) -> (u64, u64) {
    (0, block_index)
}

/// State after `sender` reports having seen the block: once `rounds`
/// replicas have seen it, it is committed.
pub open spec fn after_gossip_message(
    g: GossipView,
    block_index: u64,
    block_hash: Seq<char>,
    sender: usize,
    rounds: nat,
) -> GossipView {
    let s = with_vote(g.seen, seen_key(block_index), block_hash, sender);
    GossipView {
        seen: s,
        committed: if voters(s, seen_key(block_index)).len() >= rounds {
            g.committed.insert(block_index)
        } else {
            g.committed
        },
    }
}

/// A gossip message handled twice leaves the replica as handling it once.
pub proof fn lemma_gossip_message_idempotent(
    g: GossipView,
    block_index: u64,
    block_hash: Seq<char>,
    sender: usize,
    rounds: nat,
)
    ensures
        after_gossip_message(
            after_gossip_message(g, block_index, block_hash, sender, rounds),
            block_index,
            block_hash,
            sender,
            rounds,
        ) == after_gossip_message(g, block_index, block_hash, sender, rounds),
{
    let key = seen_key(block_index);
    crate::pbft::lemma_vote_idempotent(g.seen, key, block_hash, sender);
    let g1 = after_gossip_message(g, block_index, block_hash, sender, rounds);
    if voters(g1.seen, key).len() >= rounds {
        assert(g1.committed.insert(block_index) =~= g1.committed);
    }
    assert(after_gossip_message(g1, block_index, block_hash, sender, rounds) =~= g1);
}

/// The `k`-th peer a replica forwards to: the replicas after it, in turn,
/// around a cluster of `cluster` replicas.
pub open spec fn forward_peer(node_id: usize, k: int, cluster: nat) -> int {
    (node_id + 1 + k) % (cluster as int)
}

/// The peers of `rounds` rounds of `fanout` forwards each, in order.
pub fn forward_peers(node_id: usize, rounds: usize, fanout: usize, cluster: usize) -> (r: Vec<usize>)
    requires
        cluster > 0,
        rounds * fanout <= usize::MAX,
    ensures
        r@.len() == rounds * fanout,
        forall|k: int| 0 <= k < r@.len() ==> #[trigger] r@[k] as int == forward_peer(node_id, k, cluster as nat),
{
    let total = rounds * fanout;
    let mut r: Vec<usize> = Vec::new();
    let mut k: usize = 0;
    while k < total
        invariant
            k <= total,
            total == rounds * fanout,
            cluster > 0,
            r@.len() == k,
            forall|j: int| 0 <= j < k ==> #[trigger] r@[j] as int == forward_peer(node_id, j, cluster as nat),
        decreases total - k,
    {
        let p = ((node_id as u128 + 1 + k as u128) % cluster as u128) as usize;
        r.push(p);
        k = k + 1;
    }
    r
}

/// The blocks that have a first-seen time.
pub open spec fn first_seen_blocks(f: Seq<(u64, i64)>) -> Set<u64> {
    Set::new(|i: u64| exists|k: int| 0 <= k < f.len() && f[k].0 == i)
}

/// Stamps `block_index` with the current time unless it already has a stamp.
fn note_first_seen(first_seen: &mut Vec<(u64, i64)>, block_index: u64)
    ensures
        first_seen_blocks(final(first_seen)@) == first_seen_blocks(old(first_seen)@).insert(block_index),
        forall|k: int| 0 <= k < old(first_seen)@.len() ==> #[trigger] final(first_seen)@[k] == old(first_seen)@[k],
        final(first_seen)@.len() <= old(first_seen)@.len() + 1,
        first_seen_blocks(old(first_seen)@).contains(block_index) ==> final(first_seen)@ == old(first_seen)@,
{
    let mut k: usize = 0;
    while k < first_seen.len()
        invariant
            k <= first_seen@.len(),
            first_seen@ == old(first_seen)@,
            forall|j: int| 0 <= j < k ==> first_seen@[j].0 != block_index,
        decreases first_seen@.len() - k,
    {
        proof {
            if first_seen_blocks(first_seen@).contains(block_index) {
                let j = choose|j: int| 0 <= j < first_seen@.len() && first_seen@[j].0 == block_index;
                assert(j >= k);
            }
        }
        if first_seen[k].0 == block_index {
            assert(first_seen_blocks(first_seen@).insert(block_index) =~= first_seen_blocks(first_seen@));
            return;
        }
        k = k + 1;
    }
    let ghost before = first_seen@;
    first_seen.push((block_index, unix_now()));
    proof {
        assert forall|i: u64| #[trigger] first_seen_blocks(first_seen@).contains(i) == first_seen_blocks(before).insert(block_index).contains(i) by {
            if first_seen_blocks(before).contains(i) {
                let j = choose|j: int| 0 <= j < before.len() && before[j].0 == i;
                assert(first_seen@[j] == before[j]);
            }
            if i == block_index {
                assert(first_seen@[before.len() as int].0 == i);
            }
            if first_seen_blocks(first_seen@).contains(i) {
                let j = choose|j: int| 0 <= j < first_seen@.len() && first_seen@[j].0 == i;
                if j < before.len() {
                    assert(first_seen@[j] == before[j]);
                }
            }
        }
        assert(first_seen_blocks(first_seen@) =~= first_seen_blocks(before).insert(block_index));
    }
}

impl GossipConsensus {
    pub open spec fn wf(&self) -> bool {
        table_wf(self.seen@) && self.committed@.no_duplicates()
    }

    /// The replicas known to have seen block `block_index`.
    pub open spec fn seers(&self, block_index: u64) -> Set<usize> {
        voters(table_view(self.seen@), seen_key(block_index))
    }

    pub fn new(node_id: usize, gossip_rounds: usize, fanout: usize) -> (r: GossipConsensus)
        ensures
            r.wf(),
            r@.seen == Map::<(u64, u64), VoteEntry>::empty(),
            r@.committed == Set::<u64>::empty(),
            first_seen_blocks(r.first_seen@) == Set::<u64>::empty(),
            r.node_id == node_id,
            r.gossip_rounds == gossip_rounds,
            r.fanout == fanout,
    {
        let r = GossipConsensus {
            node_id,
            seen: Vec::new(),
            committed: Vec::new(),
            gossip_rounds,
            fanout,
            first_seen: Vec::new(),
        };
        assert(first_seen_blocks(r.first_seen@) =~= Set::<u64>::empty());
        assert(r@.committed =~= Set::<u64>::empty());
        r
    }

    /// Records this replica and the peers the block was forwarded to in the
    /// rounds (`peers`, chosen by the caller) as seers of the block. The block
    /// is committed once at least `gossip_rounds` replicas have seen it.
    pub fn propose(&mut self, block: &Block, peers: &Vec<usize>) -> (r: ConsensusResult)
        requires
            old(self).wf(),
        ensures
            final(self).wf(),
            final(self).node_id == old(self).node_id,
            final(self).gossip_rounds == old(self).gossip_rounds,
            final(self).fanout == old(self).fanout,
            final(self).seers(block.index) == old(self).seers(block.index).insert(old(self).node_id)
                + peers@.to_set(),
            forall|i: u64| i != block.index ==> #[trigger] final(self).seers(i) == old(self).seers(i),
            final(self).seers(block.index).len() >= old(self).gossip_rounds ==> (r matches ConsensusResult::Committed(
            b) && b@ == block@ && final(self)@.committed == old(self)@.committed.insert(block.index)),
            final(self).seers(block.index).len() < old(self).gossip_rounds ==> (r is Pending
                && final(self)@.committed == old(self)@.committed),
            first_seen_blocks(final(self).first_seen@) == first_seen_blocks(old(self).first_seen@).insert(
                block.index,
            ),
            forall|k: int|
                0 <= k < old(self).first_seen@.len() ==> #[trigger] final(self).first_seen@[k] == old(self).first_seen@[k],
            first_seen_blocks(old(self).first_seen@).contains(block.index) ==> final(self).first_seen@ == old(self).first_seen@,
    {
        let ghost key = seen_key(block.index);
        let ghost m0 = table_view(self.seen@);
        proof {
            lemma_with_vote_voters(m0, key, block.hash@, self.node_id);
        }
        let _ = record_vote(&mut self.seen, 0, block.index, &block.hash, self.node_id);
        proof {
            assert forall|k: u64| k != block.index implies #[trigger] voters(
                table_view(self.seen@),
                seen_key(k),
            ) == old(self).seers(k) by {
                assert(seen_key(k) != key);
                assert(voters(with_vote(m0, key, block.hash@, self.node_id), seen_key(k)) == voters(
                    m0,
                    seen_key(k),
                ));
            }
        }
        let mut i: usize = 0;
        while i < peers.len()
            invariant
                table_wf(self.seen@),
                self.committed == old(self).committed,
                self.node_id == old(self).node_id,
                self.gossip_rounds == old(self).gossip_rounds,
                self.fanout == old(self).fanout,
                self.first_seen == old(self).first_seen,
                i <= peers@.len(),
                voters(table_view(self.seen@), key) == old(self).seers(block.index).insert(
                    self.node_id,
                ) + peers@.subrange(0, i as int).to_set(),
                key == seen_key(block.index),
                forall|k: u64| k != block.index ==> #[trigger] voters(table_view(self.seen@), seen_key(k)) == old(self).seers(k),
            decreases peers@.len() - i,
        {
            let ghost m0 = table_view(self.seen@);
            proof {
                lemma_with_vote_voters(m0, key, block.hash@, peers@[i as int]);
                let before = peers@.subrange(0, i as int);
                let next = peers@.subrange(0, i + 1);
                assert(next =~= before.push(peers@[i as int]));
                before.lemma_push_to_set_commute(peers@[i as int]);
            }
            let _ = record_vote(&mut self.seen, 0, block.index, &block.hash, peers[i]);
            proof {
                let base = old(self).seers(block.index).insert(self.node_id);
                assert(base + peers@.subrange(0, i + 1).to_set() =~= (base + peers@.subrange(
                    0,
                    i as int,
                ).to_set()).insert(peers@[i as int]));
                assert forall|k: u64| k != block.index implies #[trigger] voters(
                    table_view(self.seen@),
                    seen_key(k),
                ) == old(self).seers(k) by {
                    assert(seen_key(k) != key);
                    assert(voters(with_vote(m0, key, block.hash@, peers@[i as int]), seen_key(k))
                        == voters(m0, seen_key(k)));
                }
            }
            i = i + 1;
        }
        proof {
            assert(peers@.subrange(0, peers@.len() as int) =~= peers@);
            if i == 0 {
                assert(peers@.subrange(0, 0).to_set() =~= Set::<usize>::empty());
                assert(old(self).seers(block.index).insert(self.node_id) + Set::<usize>::empty()
                    =~= old(self).seers(block.index).insert(self.node_id));
            }
        }
        note_first_seen(&mut self.first_seen, block.index);
        let now_seen = self.seen_count(block.index);
        if now_seen >= self.gossip_rounds {
            insert_index(&mut self.committed, block.index);
            ConsensusResult::Committed(block.duplicate())
        } else {
            ConsensusResult::Pending
        }
    }

    /// How many replicas are known to have seen block `block_index`.
    pub fn seen_count(&self, block_index: u64) -> (r: usize)
        requires
            self.wf(),
        ensures
            r == self.seers(block_index).len(),
    {
        crate::votes::vote_count(&self.seen, 0, block_index)
    }

    /// Records the sender as a seer of the block; commits the block once
    /// `gossip_rounds` replicas have seen it. The outcome is always `Pending`:
    /// a message does not carry the block.
    pub fn handle_message(&mut self, message: &ConsensusMessage) -> (r: ConsensusResult)
        requires
            old(self).wf(),
        ensures
            final(self).wf(),
            final(self).node_id == old(self).node_id,
            final(self).gossip_rounds == old(self).gossip_rounds,
            final(self).fanout == old(self).fanout,
            final(self)@ == after_gossip_message(
                old(self)@,
                message.block_index,
                message.block_hash@,
                message.node_id,
                old(self).gossip_rounds as nat,
            ),
            r is Pending,
            first_seen_blocks(final(self).first_seen@) == first_seen_blocks(old(self).first_seen@).insert(
                message.block_index,
            ),
            forall|k: int|
                0 <= k < old(self).first_seen@.len() ==> #[trigger] final(self).first_seen@[k] == old(self).first_seen@[k],
            first_seen_blocks(old(self).first_seen@).contains(message.block_index) ==> final(self).first_seen@ == old(self).first_seen@,
    {
        let ghost g = self@;
        note_first_seen(&mut self.first_seen, message.block_index);
        let _ = record_vote(&mut self.seen, 0, message.block_index, &message.block_hash, message.node_id);
        let n = self.seen_count(message.block_index);
        if n >= self.gossip_rounds {
            insert_index(&mut self.committed, message.block_index);
        }
        proof {
            assert(self@ =~= after_gossip_message(
                g,
                message.block_index,
                message.block_hash@,
                message.node_id,
                self.gossip_rounds as nat,
            ));
        }
        ConsensusResult::Pending
    }

    pub fn is_committed(&self, block_index: u64) -> (r: bool)
        ensures
            r == self@.committed.contains(block_index),
    {
        contains_index(&self.committed, block_index)
    }

    pub fn name(&self) -> (r: &'static str)
        ensures
            r@ == "Gossip Protocol"@,
    {
        proof {
            reveal_strlit("Gossip Protocol");
        }
        "Gossip Protocol"
    }

    pub fn requirements(&self) -> (r: ConsensusRequirements)
        ensures
            !r.requires_majority,
            r.min_nodes is None,
    {
        ConsensusRequirements {
            requires_majority: false,
            min_nodes: None,
            description: "Gossip-based consensus - eventual consistency after the configured rounds and fanout".to_owned(),
        }
    }
}

} // verus!
