use vstd::prelude::*;
use vstd::string::*;

use crate::block::{block_hash, hash_input, Block, BlockView};
use crate::consensus::{
    contains_index, insert_index, ConsensusMessage, ConsensusRequirements, ConsensusResult,
};
use crate::eventual::EventualConsensus;
use crate::gossip::{after_gossip_message, GossipConsensus};
use crate::paxos::FlexiblePaxos;
use crate::pbft::{propose_commits, PBFTConsensus};
use crate::quorumless::{after_weighted_vote, weight_sum, QuorumlessConsensus};
use crate::votes::{lemma_with_vote_voters, record_vote, table_view, table_wf, vote_count, voter_list, voters, with_vote, VoteSet};

verus! {

/// What the driver supplies to a consensus attempt besides the block: the
/// block as JSON (carried by a PBFT pre-prepare), the peers a gossip round
/// forwarded to, and how long the driver waited before the attempt.
pub struct ProposeContext {
    pub block_json: String,
    pub peers: Vec<usize>,
    pub waited_ms: u64,
}

/// The closed set of protocols.
pub enum ConsensusEngine {
    Pbft(PBFTConsensus),
    Gossip(GossipConsensus),
    Eventual(EventualConsensus),
    Quorumless(QuorumlessConsensus),
    FlexiblePaxos(FlexiblePaxos),
}

impl ConsensusEngine {
    pub open spec fn wf(&self) -> bool {
        match self {
            ConsensusEngine::Pbft(e) => e.wf(),
            ConsensusEngine::Gossip(e) => e.wf(),
            ConsensusEngine::Eventual(e) => e.wf(),
            ConsensusEngine::Quorumless(e) => e.wf(),
            ConsensusEngine::FlexiblePaxos(e) => e.wf(),
        }
    }

    /// The protocol's display name.
    pub open spec fn spec_name(&self) -> Seq<char> {
        match self {
            ConsensusEngine::Pbft(_) => "PBFT"@,
            ConsensusEngine::Gossip(_) => "Gossip Protocol"@,
            ConsensusEngine::Eventual(_) => "Eventual Consistency"@,
            ConsensusEngine::Quorumless(_) => "Quorum-less (Weighted)"@,
            ConsensusEngine::FlexiblePaxos(_) => "Flexible Paxos"@,
        }
    }

    /// Whether the protocol needs a majority of replicas.
    pub open spec fn spec_requires_majority(&self) -> bool {
        self is Pbft || self is FlexiblePaxos
    }

    /// The least number of replicas the protocol names: four for PBFT, the
    /// phase-1 quorum for Flexible Paxos, none otherwise.
    pub open spec fn spec_min_nodes(&self) -> Option<usize> {
        match self {
            ConsensusEngine::Pbft(_) => Some(4usize),
            ConsensusEngine::FlexiblePaxos(e) => Some(e.spec_q1() as usize),
            _ => None,
        }
    }

    /// The block indices this replica holds as committed.
    pub open spec fn committed_set(&self) -> Set<u64> {
        match self {
            ConsensusEngine::Pbft(e) => e.pbft.state@.committed,
            ConsensusEngine::Gossip(e) => e@.committed,
            ConsensusEngine::Eventual(e) => e.committed_set(),
            ConsensusEngine::Quorumless(e) => e@.committed,
            ConsensusEngine::FlexiblePaxos(e) => e.committed_set(),
        }
    }
}

/// The benchmark outcome of a consensus result: the committed block, or nothing.
pub fn outcome(result: ConsensusResult) -> (r: Option<Block>)
    ensures
        result matches ConsensusResult::Committed(b) ==> r == Some(b),
        !(result is Committed) ==> r is None,
{
    match result {
        ConsensusResult::Committed(b) => Some(b),
        ConsensusResult::Pending => None,
        ConsensusResult::Rejected(_) => None,
    }
}

/// Any protocol behind the benchmark surface.
pub struct ConsensusAlgorithmAdapter {
    pub algorithm: ConsensusEngine,
}

impl ConsensusAlgorithmAdapter {
    pub open spec fn wf(&self) -> bool {
        self.algorithm.wf()
    }

    pub open spec fn committed_set(&self) -> Set<u64> {
        self.algorithm.committed_set()
    }

    pub fn new(algorithm: ConsensusEngine) -> (r: ConsensusAlgorithmAdapter)
        ensures
            r.algorithm == algorithm,
    {
        ConsensusAlgorithmAdapter { algorithm }
    }

    /// One consensus attempt: the committed block, or `None` when the
    /// protocol left it pending or rejected it. No commitment is withdrawn.
    pub fn execute(&mut self, block: &Block, context: &ProposeContext) -> (r: Option<Block>)
        requires
            old(self).wf(),
        ensures
            final(self).wf(),
            old(self).committed_set().subset_of(final(self).committed_set()),
            r matches Some(b) ==> final(self).committed_set().contains(b.index),
            r matches Some(b) ==> (old(self).algorithm is FlexiblePaxos || b@ == block@),
            r matches Some(b) ==> (old(self).algorithm is FlexiblePaxos ==> (final(self).algorithm matches ConsensusEngine::FlexiblePaxos(f) && Some(b@) == f.decided())),
            old(self).algorithm matches ConsensusEngine::Pbft(e) ==> (r is Some <==> propose_commits(
                e.pbft.state@,
                (e.pbft.state.view, block.index),
                block.hash@,
                e.pbft.state.node_id,
                e.pbft.leads(block.index),
                e.pbft.total_nodes as nat,
            )),
            old(self).algorithm matches ConsensusEngine::Gossip(e) ==> (r is Some <==> (e.seers(
                block.index,
            ).insert(e.node_id) + context.peers@.to_set()).len() >= e.gossip_rounds),
            old(self).algorithm matches ConsensusEngine::Eventual(e) ==> (r is Some <==> context.waited_ms
                >= e.confirmation_delay_ms),
            old(self).algorithm matches ConsensusEngine::Quorumless(e) ==> (r is Some <==> weight_sum(
                e.node_weights@,
                voter_list(
                    with_vote(table_view(e.votes@), (0, block.index), block.hash@, e.node_id),
                    (0, block.index),
                ),
            ) >= e.threshold_weight),
            old(self).algorithm matches ConsensusEngine::FlexiblePaxos(e) ==> (r is Some <==> (
            e.has_next_proposal() && e.spec_total_nodes() >= e.spec_q1() && e.spec_total_nodes()
                >= e.spec_q2())),
    {
        match &mut self.algorithm {
            ConsensusEngine::Pbft(e) => outcome(e.propose(block, context.block_json.as_str())),
            ConsensusEngine::Gossip(e) => {
                let r = e.propose(block, &context.peers);
                proof {
                    if r is Committed {
                        assert(e@.committed.contains(block.index));
                    }
                }
                outcome(r)
            },
            ConsensusEngine::Eventual(e) => outcome(e.propose(block, context.waited_ms)),
            ConsensusEngine::Quorumless(e) => {
                let r = e.propose(block);
                outcome(r)
            },
            ConsensusEngine::FlexiblePaxos(e) => outcome(e.propose(block)),
        }
    }

    /// Hands a transport message to the protocol. No commitment is withdrawn.
    pub fn handle_message(&mut self, message: &ConsensusMessage) -> (r: ConsensusResult)
        requires
            old(self).wf(),
        ensures
            final(self).wf(),
            r is Pending,
            old(self).committed_set().subset_of(final(self).committed_set()),
            old(self).algorithm matches ConsensusEngine::Gossip(e) ==> (final(self).algorithm matches ConsensusEngine::Gossip(f) && f@ == after_gossip_message(
                e@,
                message.block_index,
                message.block_hash@,
                message.node_id,
                e.gossip_rounds as nat,
            ) && f.gossip_rounds == e.gossip_rounds && f.node_id == e.node_id),
            old(self).algorithm matches ConsensusEngine::Quorumless(e) ==> (final(self).algorithm matches ConsensusEngine::Quorumless(f) && f@ == after_weighted_vote(
                e@,
                message.block_index,
                message.block_hash@,
                message.node_id,
                e.threshold_weight as nat,
            ) && f.threshold_weight == e.threshold_weight && f.node_id == e.node_id),
            old(self).algorithm is Pbft ==> final(self).algorithm == old(self).algorithm,
            old(self).algorithm is Eventual ==> final(self).algorithm == old(self).algorithm,
            old(self).algorithm is FlexiblePaxos ==> final(self).algorithm == old(self).algorithm,
    {
        match &mut self.algorithm {
            ConsensusEngine::Pbft(e) => e.handle_message(message),
            ConsensusEngine::Gossip(e) => e.handle_message(message),
            ConsensusEngine::Eventual(e) => e.handle_message(message),
            ConsensusEngine::Quorumless(e) => e.handle_message(message),
            ConsensusEngine::FlexiblePaxos(e) => e.handle_message(message),
        }
    }

    pub fn name(&self) -> (r: &'static str)
        ensures
            r@ == self.algorithm.spec_name(),
    {
        match &self.algorithm {
            ConsensusEngine::Pbft(e) => e.name(),
            ConsensusEngine::Gossip(e) => e.name(),
            ConsensusEngine::Eventual(e) => e.name(),
            ConsensusEngine::Quorumless(e) => e.name(),
            ConsensusEngine::FlexiblePaxos(e) => e.name(),
        }
    }

    pub fn requirements(&self) -> (r: ConsensusRequirements)
        ensures
            r.requires_majority == self.algorithm.spec_requires_majority(),
            r.min_nodes == self.algorithm.spec_min_nodes(),
    {
        match &self.algorithm {
            ConsensusEngine::Pbft(e) => e.requirements(),
            ConsensusEngine::Gossip(e) => e.requirements(),
            ConsensusEngine::Eventual(e) => e.requirements(),
            ConsensusEngine::Quorumless(e) => e.requirements(),
            ConsensusEngine::FlexiblePaxos(e) => e.requirements(),
        }
    }

    pub fn is_committed(&self, block_index: u64) -> (r: bool)
        ensures
            r == self.committed_set().contains(block_index),
    {
        match &self.algorithm {
            ConsensusEngine::Pbft(e) => e.is_committed(block_index),
            ConsensusEngine::Gossip(e) => e.is_committed(block_index),
            ConsensusEngine::Eventual(e) => e.is_committed(block_index),
            ConsensusEngine::Quorumless(e) => e.is_committed(block_index),
            ConsensusEngine::FlexiblePaxos(e) => e.is_committed(block_index),
        }
    }
}

/// Single-node confirmation: every block commits at once.
pub struct NoConsensusStrategy {
    pub committed: Vec<u64>,
}

impl NoConsensusStrategy {
    pub open spec fn wf(&self) -> bool {
        self.committed@.no_duplicates()
    }

    pub fn new() -> (r: NoConsensusStrategy)
        ensures
            r.wf(),
            r.committed@.to_set() == Set::<u64>::empty(),
    {
        let r = NoConsensusStrategy { committed: Vec::new() };
        assert(r.committed@.to_set() =~= Set::<u64>::empty());
        r
    }

    pub fn execute(&mut self, block: &Block) -> (r: Option<Block>)
        requires
            old(self).wf(),
        ensures
            final(self).wf(),
            r matches Some(b) && b@ == block@,
            final(self).committed@.to_set() == old(self).committed@.to_set().insert(block.index),
    {
        insert_index(&mut self.committed, block.index);
        Some(block.duplicate())
    }

    pub fn is_committed(&self, block_index: u64) -> (r: bool)
        ensures
            r == self.committed@.to_set().contains(block_index),
    {
        contains_index(&self.committed, block_index)
    }

    pub fn name(&self) -> (r: &'static str)
        ensures
            r@ == "No-Consensus (Single Node)"@,
    {
        proof {
            reveal_strlit("No-Consensus (Single Node)");
        }
        "No-Consensus (Single Node)"
    }

    pub fn requirements(&self) -> (r: ConsensusRequirements)
        ensures
            !r.requires_majority,
            r.min_nodes == Some(1usize),
    {
        ConsensusRequirements {
            requires_majority: false,
            min_nodes: Some(1),
            description: "No consensus required - single node confirmation".to_owned(),
        }
    }
}

/// Non-Byzantine majority voting, with the other replicas' votes simulated.
pub struct SimpleMajorityStrategy {
    pub node_id: usize,
    pub total_nodes: usize,
    pub votes: Vec<VoteSet>,
    pub committed: Vec<u64>,
}

impl SimpleMajorityStrategy {
    pub open spec fn wf(&self) -> bool {
        table_wf(self.votes@) && self.committed@.no_duplicates()
    }

    /// `n / 2 + 1`.
    pub open spec fn majority(n: nat) -> nat {
        n / 2 + 1
    }

    pub fn new(node_id: usize, total_nodes: usize) -> (r: SimpleMajorityStrategy)
        ensures
            r.wf(),
            r.node_id == node_id,
            r.total_nodes == total_nodes,
            r.committed@.to_set() == Set::<u64>::empty(),
    {
        let r = SimpleMajorityStrategy { node_id, total_nodes, votes: Vec::new(), committed: Vec::new() };
        assert(r.committed@.to_set() =~= Set::<u64>::empty());
        r
    }

    fn majority_size(&self) -> (r: usize)
        ensures
            r == Self::majority(self.total_nodes as nat),
    {
        self.total_nodes / 2 + 1
    }

    /// Records this replica's vote and those of every other replica, then
    /// commits when the voters reach a majority.
    pub fn execute(&mut self, block: &Block) -> (r: Option<Block>)
        requires
            old(self).wf(),
        ensures
            final(self).wf(),
            final(self).total_nodes == old(self).total_nodes,
            final(self).node_id == old(self).node_id,
            voters(table_view(final(self).votes@), (0, block.index)) == voters(
                table_view(old(self).votes@),
                (0, block.index),
            ).insert(old(self).node_id) + Set::new(|n: usize| n < old(self).total_nodes),
            voters(table_view(final(self).votes@), (0, block.index)).len() >= Self::majority(
                old(self).total_nodes as nat,
            ) ==> (r matches Some(b) && b@ == block@ && final(self).committed@.to_set() == old(self).committed@.to_set().insert(block.index)),
            voters(table_view(final(self).votes@), (0, block.index)).len() < Self::majority(
                old(self).total_nodes as nat,
            ) ==> (r is None && final(self).committed@.to_set() == old(self).committed@.to_set()),
    {
        let ghost key = (0u64, block.index);
        let ghost base = voters(table_view(self.votes@), key).insert(self.node_id);
        proof {
            lemma_with_vote_voters(table_view(self.votes@), key, block.hash@, self.node_id);
        }
        let _ = record_vote(&mut self.votes, 0, block.index, &block.hash, self.node_id);
        proof {
            assert(base + Set::new(|n: usize| n < 0) =~= base);
        }
        let mut i: usize = 0;
        while i < self.total_nodes
            invariant
                table_wf(self.votes@),
                self.total_nodes == old(self).total_nodes,
                self.node_id == old(self).node_id,
                self.committed == old(self).committed,
                i <= self.total_nodes,
                key == (0u64, block.index),
                base == voters(table_view(old(self).votes@), key).insert(old(self).node_id),
                voters(table_view(self.votes@), key) == base + Set::new(|n: usize| n < i),
            decreases self.total_nodes - i,
        {
            if i != self.node_id {
                proof {
                    lemma_with_vote_voters(table_view(self.votes@), key, block.hash@, i);
                }
                let _ = record_vote(&mut self.votes, 0, block.index, &block.hash, i);
            }
            assert(voters(table_view(self.votes@), key) =~= base + Set::new(|n: usize| n < i + 1));
            i = i + 1;
        }
        let count = vote_count(&self.votes, 0, block.index);
        if count >= self.majority_size() {
            insert_index(&mut self.committed, block.index);
            Some(block.duplicate())
        } else {
            None
        }
    }

    pub fn is_committed(&self, block_index: u64) -> (r: bool)
        ensures
            r == self.committed@.to_set().contains(block_index),
    {
        contains_index(&self.committed, block_index)
    }

    pub fn name(&self) -> (r: &'static str)
        ensures
            r@ == "Simple Majority (Non-BFT)"@,
    {
        proof {
            reveal_strlit("Simple Majority (Non-BFT)");
        }
        "Simple Majority (Non-BFT)"
    }

    pub fn requirements(&self) -> (r: ConsensusRequirements)
        ensures
            r.requires_majority,
            r.min_nodes == Some((self.total_nodes / 2 + 1) as usize),
    {
        ConsensusRequirements {
            requires_majority: true,
            min_nodes: Some(self.majority_size()),
            description: "Simple majority voting (non-Byzantine)".to_owned(),
        }
    }
}

/// Last nonce tried by the miner.
pub const MAX_NONCE: u64 = 100_000;

/// The first `d` characters of `h` are all `'0'`.
pub open spec fn has_zero_prefix(h: Seq<char>, d: nat) -> bool {
    d <= h.len() && forall|i: int| 0 <= i < d ==> h[i] == '0'
}

/// Whether `h` starts with `d` zeros.
pub fn zero_prefix(h: &String, d: usize) -> (r: bool)
    ensures
        r == has_zero_prefix(h@, d as nat),
{
    let s = h.as_str();
    if s.unicode_len() < d {
        return false;
    }
    let mut i: usize = 0;
    while i < d
        invariant
            d <= s@.len(),
            s@ == h@,
            i <= d,
            forall|k: int| 0 <= k < i ==> h@[k] == '0',
        decreases d - i,
    {
        if s.get_char(i) != '0' {
            return false;
        }
        i = i + 1;
    }
    true
}

/// `b` with its nonce set to `n`.
pub open spec fn with_nonce(b: BlockView, n: u64) -> BlockView {
    BlockView { nonce: n, ..b }
}

/// The nonce the miner settles on when it starts at `n`: the first from `n`
/// on whose hash has `d` leading zeros, or `MAX_NONCE` if none comes before.
pub open spec fn mined_nonce(b: BlockView, d: nat, n: u64) -> u64
    decreases MAX_NONCE - n,
{
    if has_zero_prefix(block_hash(with_nonce(b, n)), d) || n >= MAX_NONCE {
        n
    } else {
        mined_nonce(b, d, (n + 1) as u64)
    }
}

/// `b` as the miner leaves it: the settled nonce and its hash.
pub open spec fn mined(b: BlockView, d: nat) -> BlockView {
    let n = mined_nonce(b, d, b.nonce);
    BlockView { nonce: n, hash: block_hash(with_nonce(b, n)), ..b }
}

/// Proof of work: search nonces until the hash starts with `difficulty` zeros.
pub struct SimplifiedPoWStrategy {
    pub difficulty: usize,
    pub committed: Vec<u64>,
}

impl SimplifiedPoWStrategy {
    pub open spec fn wf(&self) -> bool {
        self.committed@.no_duplicates()
    }

    pub fn new(difficulty: usize) -> (r: SimplifiedPoWStrategy)
        ensures
            r.wf(),
            r.difficulty == difficulty,
            r.committed@.to_set() == Set::<u64>::empty(),
    {
        let r = SimplifiedPoWStrategy { difficulty, committed: Vec::new() };
        assert(r.committed@.to_set() =~= Set::<u64>::empty());
        r
    }

    /// Tries nonces upward from the block's own until its hash starts with
    /// `difficulty` zeros or the nonce reaches `MAX_NONCE`. The block ends
    /// with the hash of its final nonce; other fields are kept.
    pub fn mine_block(&self, block: &mut Block)
        ensures
            final(block)@.hash == block_hash(final(block)@),
            has_zero_prefix(final(block)@.hash, self.difficulty as nat) || final(block).nonce
                >= MAX_NONCE,
            final(block).nonce >= old(block).nonce,
            final(block)@ == (BlockView {
                nonce: final(block).nonce,
                hash: final(block)@.hash,
                ..old(block)@
            }),
            final(block)@ == mined(old(block)@, self.difficulty as nat),
    {
        loop
            invariant
                block.nonce >= old(block).nonce,
                block@ == (BlockView { nonce: block.nonce, hash: block@.hash, ..old(block)@ }),
                mined_nonce(old(block)@, self.difficulty as nat, block.nonce) == mined_nonce(
                    old(block)@,
                    self.difficulty as nat,
                    old(block).nonce,
                ),
            ensures
                block@ == mined(old(block)@, self.difficulty as nat),
                block@.hash == block_hash(block@),
                has_zero_prefix(block@.hash, self.difficulty as nat) || block.nonce >= MAX_NONCE,
                block.nonce >= old(block).nonce,
                block@ == (BlockView { nonce: block.nonce, hash: block@.hash, ..old(block)@ }),
            decreases MAX_NONCE - block.nonce,
        {
            block.calculate_hash_with_nonce();
            proof {
                assert(block_hash(block@) == block@.hash);
                assert(hash_input(block@) == hash_input(with_nonce(old(block)@, block.nonce)));
            }
            if zero_prefix(&block.hash, self.difficulty) {
                assert(block@ =~= mined(old(block)@, self.difficulty as nat));
                break;
            }
            if block.nonce >= MAX_NONCE {
                assert(block@ =~= mined(old(block)@, self.difficulty as nat));
                break;
            }
            block.nonce = block.nonce + 1;
        }
    }

    /// Mines a copy of `block`; commits it when the hash meets the difficulty.
    pub fn execute(&mut self, block: &Block) -> (r: Option<Block>)
        requires
            old(self).wf(),
        ensures
            final(self).wf(),
            has_zero_prefix(mined(block@, old(self).difficulty as nat).hash, old(self).difficulty as nat)
                ==> (r matches Some(b) && b@ == mined(block@, old(self).difficulty as nat)
                && final(self).committed@.to_set() == old(self).committed@.to_set().insert(block.index)),
            !has_zero_prefix(mined(block@, old(self).difficulty as nat).hash, old(self).difficulty as nat)
                ==> (r is None && final(self).committed@.to_set() == old(self).committed@.to_set()),
            r matches Some(b) ==> b@.hash == block_hash(b@),
    {
        let mut mined = block.duplicate();
        self.mine_block(&mut mined);
        if zero_prefix(&mined.hash, self.difficulty) {
            insert_index(&mut self.committed, mined.index);
            Some(mined)
        } else {
            None
        }
    }

    pub fn is_committed(&self, block_index: u64) -> (r: bool)
        ensures
            r == self.committed@.to_set().contains(block_index),
    {
        contains_index(&self.committed, block_index)
    }

    pub fn name(&self) -> (r: &'static str)
        ensures
            r@ == "Simplified PoW"@,
    {
        proof {
            reveal_strlit("Simplified PoW");
        }
        "Simplified PoW"
    }

    pub fn requirements(&self) -> (r: ConsensusRequirements)
        ensures
            !r.requires_majority,
            r.min_nodes is None,
    {
        ConsensusRequirements {
            requires_majority: false,
            min_nodes: None,
            description: "Proof-of-Work: requires a hash with the configured leading zeros".to_owned(),
        }
    }
}

} // verus!
