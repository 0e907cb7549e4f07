use vstd::prelude::*;

use crate::block::Block;

verus! {

/// Outcome of one consensus attempt.
#[derive(Debug, Clone)]
pub enum ConsensusResult {
    /// This replica holds the block as final.
    Committed(Block),
    /// Not decided within this attempt.
    Pending,
    /// Malformed input.
    Rejected(String),
}

/// Display and benchmark labels of a protocol.
#[derive(Debug, Clone)]
pub struct ConsensusRequirements {
    pub requires_majority: bool,
    pub min_nodes: Option<usize>,
    pub description: String,
}

/// A message between replicas, for protocols that use the generic transport.
#[derive(Debug, Clone)]
pub struct ConsensusMessage {
    pub algorithm: String,
    pub block_index: u64,
    pub block_hash: String,
    pub node_id: usize,
    pub data: Vec<u8>,
}

/// Whether `index` is listed.
pub fn contains_index(v: &Vec<u64>, index: u64) -> (r: bool)
    ensures
        r == v@.contains(index),
{
    let mut i: usize = 0;
    while i < v.len()
        invariant
            i <= v@.len(),
            forall|k: int| 0 <= k < i ==> v@[k] != index,
        decreases v@.len() - i,
    {
        if v[i] == index {
            return true;
        }
        i = i + 1;
    }
    false
}

/// Adds `index` to a list without repeats, keeping it without repeats.
pub fn insert_index(v: &mut Vec<u64>, index: u64)
    requires
        old(v)@.no_duplicates(),
    ensures
        final(v)@.no_duplicates(),
        final(v)@.to_set() == old(v)@.to_set().insert(index),
{
    if contains_index(v, index) {
        assert(old(v)@.to_set().insert(index) =~= old(v)@.to_set());
    } else {
        let ghost before = v@;
        v.push(index);
        proof {
            before.lemma_push_to_set_commute(index);
            assert forall|a: int, b: int|
                0 <= a < v@.len() && 0 <= b < v@.len() && a != b implies v@[a] != v@[b] by {
                if b == before.len() {
                    assert(v@[a] == before[a]);
                } else if a == before.len() {
                    assert(v@[b] == before[b]);
                }
            }
        }
    }
}

} // verus!
