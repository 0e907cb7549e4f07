use vstd::prelude::*;

use crate::block::Block;
use crate::consensus::{
    contains_index, insert_index, ConsensusMessage, ConsensusRequirements, ConsensusResult,
};

verus! {

/// Time-gated commitment: a block is final once the confirmation delay has
/// passed. The caller waits; `propose` is told how long it waited.
/// `min_confirmations` is reported in the requirements and not enforced.
pub struct EventualConsensus {
    pub node_id: usize,
    pub committed: Vec<u64>,
    pub confirmation_delay_ms: u64,
    pub min_confirmations: usize,
}

impl EventualConsensus {
    pub open spec fn wf(&self) -> bool {
        self.committed@.no_duplicates()
    }

    pub open spec fn committed_set(&self) -> Set<u64> {
        self.committed@.to_set()
    }

    pub fn new(node_id: usize, confirmation_delay_ms: u64, min_confirmations: usize) -> (r:
        EventualConsensus)
        ensures
            r.wf(),
            r.committed_set() == Set::<u64>::empty(),
            r.node_id == node_id,
            r.confirmation_delay_ms == confirmation_delay_ms,
            r.min_confirmations == min_confirmations,
    {
        let r = EventualConsensus {
            node_id,
            committed: Vec::new(),
            confirmation_delay_ms,
            min_confirmations,
        };
        assert(r.committed_set() =~= Set::<u64>::empty());
        r
    }

    /// How long a caller waits before `propose`.
    pub fn delay_ms(&self) -> (r: u64)
        ensures
            r == self.confirmation_delay_ms,
    {
        self.confirmation_delay_ms
    }

    /// Commits `block` once `waited_ms` covers the confirmation delay;
    /// before that the outcome is `Pending` and nothing changes.
    pub fn propose(&mut self, block: &Block, waited_ms: u64) -> (r: ConsensusResult)
        requires
            old(self).wf(),
        ensures
            final(self).wf(),
            final(self).confirmation_delay_ms == old(self).confirmation_delay_ms,
            final(self).min_confirmations == old(self).min_confirmations,
            waited_ms >= old(self).confirmation_delay_ms ==> (r matches ConsensusResult::Committed(b)
                && b@ == block@ && final(self).committed_set() == old(self).committed_set().insert(
                block.index,
            )),
            waited_ms < old(self).confirmation_delay_ms ==> (r is Pending && final(self).committed_set()
                == old(self).committed_set()),
    {
        if waited_ms >= self.confirmation_delay_ms {
            insert_index(&mut self.committed, block.index);
            ConsensusResult::Committed(block.duplicate())
        } else {
            ConsensusResult::Pending
        }
    }

    /// Acknowledges a message; nothing changes.
    pub fn handle_message(&mut self, message: &ConsensusMessage) -> (r: ConsensusResult)
        ensures
            r is Pending,
            *final(self) == *old(self),
    {
        ConsensusResult::Pending
    }

    pub fn is_committed(&self, block_index: u64) -> (r: bool)
        ensures
            r == self.committed_set().contains(block_index),
    {
        contains_index(&self.committed, block_index)
    }

    pub fn name(&self) -> (r: &'static str)
        ensures
            r@ == "Eventual Consistency"@,
    {
        proof {
            reveal_strlit("Eventual Consistency");
        }
        "Eventual Consistency"
    }

    pub fn requirements(&self) -> (r: ConsensusRequirements)
        ensures
            !r.requires_majority,
            r.min_nodes is None,
    {
        ConsensusRequirements {
            requires_majority: false,
            min_nodes: None,
            description: "Eventual consistency - commits after the confirmation delay".to_owned(),
        }
    }
}

} // verus!
