use vstd::prelude::*;

use crate::consensus::ConsensusRequirements;

verus! {

/// How one consensus attempt ended, as the benchmark counts it.
#[derive(Debug, Clone, Copy, PartialEq, Eq, Structural)]
pub enum BlockOutcome {
    /// The strategy returned the committed block.
    Committed,
    /// The strategy returned no block.
    Failed,
    /// The strategy returned an error.
    Error,
}

/// The record of one strategy on one block.
#[derive(Debug, Clone)]
pub struct ConsensusComparisonResult {
    pub strategy_name: String,
    pub block_index: u64,
    pub committed: bool,
    pub execution_time_ms: u64,
    pub requirements: ConsensusRequirements,
    pub error_occurred: bool,
    pub data_integrity: bool,
}

impl ConsensusComparisonResult {
    /// Committed attempts keep integrity, failed ones too; an error loses it.
    pub fn from_outcome(
        strategy_name: String,
        block_index: u64,
        outcome: BlockOutcome,
        execution_time_ms: u64,
        requirements: ConsensusRequirements,
    ) -> (r: ConsensusComparisonResult)
        ensures
            r.strategy_name@ == strategy_name@,
            r.block_index == block_index,
            r.committed == (outcome == BlockOutcome::Committed),
            r.error_occurred == (outcome == BlockOutcome::Error),
            r.data_integrity == (outcome != BlockOutcome::Error),
            r.execution_time_ms == execution_time_ms,
            r.requirements == requirements,
    {
        let committed = outcome == BlockOutcome::Committed;
        let error_occurred = outcome == BlockOutcome::Error;
        ConsensusComparisonResult {
            strategy_name,
            block_index,
            committed,
            execution_time_ms,
            requirements,
            error_occurred,
            data_integrity: !error_occurred,
        }
    }
}

/// Integer counters of a multi-block benchmark of one strategy. Rates,
/// averages and throughput are ratios of these.
#[derive(Debug, Clone, Copy)]
pub struct BenchmarkTally {
    pub total_blocks: u64,
    pub committed_blocks: u64,
    pub failed_blocks: u64,
    pub error_blocks: u64,
    pub min_latency_ms: u64,
    pub max_latency_ms: u64,
    pub total_latency_ms: u128,
    pub data_integrity_maintained: bool,
}

impl BenchmarkTally {
    /// The counters add up and the latency sum fits its bound.
    pub open spec fn wf(&self) -> bool {
        &&& self.committed_blocks + self.failed_blocks + self.error_blocks == self.total_blocks
        &&& self.total_latency_ms <= self.total_blocks * u64::MAX
        &&& self.total_blocks == 0 ==> self.min_latency_ms == 0 && self.max_latency_ms == 0
        &&& self.min_latency_ms <= self.max_latency_ms
    }

    pub fn new() -> (r: BenchmarkTally)
        ensures
            r.wf(),
            r.total_blocks == 0,
            r.total_latency_ms == 0,
            r.data_integrity_maintained,
    {
        BenchmarkTally {
            total_blocks: 0,
            committed_blocks: 0,
            failed_blocks: 0,
            error_blocks: 0,
            min_latency_ms: 0,
            max_latency_ms: 0,
            total_latency_ms: 0,
            data_integrity_maintained: true,
        }
    }

    /// Counts one block: its outcome, its latency, and whether the strategy
    /// reports it committed although the attempt ended in an error.
    pub fn record(&mut self, outcome: BlockOutcome, latency_ms: u64, committed_anyway: bool)
        requires
            old(self).wf(),
            old(self).total_blocks < u64::MAX,
        ensures
            final(self).wf(),
            final(self).total_blocks == old(self).total_blocks + 1,
            final(self).committed_blocks == old(self).committed_blocks + if outcome
                == BlockOutcome::Committed {
                1int
            } else {
                0int
            },
            final(self).failed_blocks == old(self).failed_blocks + if outcome == BlockOutcome::Failed {
                1int
            } else {
                0int
            },
            final(self).error_blocks == old(self).error_blocks + if outcome == BlockOutcome::Error {
                1int
            } else {
                0int
            },
            final(self).total_latency_ms == old(self).total_latency_ms + latency_ms,
            final(self).min_latency_ms == if old(self).total_blocks == 0 || latency_ms
                < old(self).min_latency_ms {
                latency_ms
            } else {
                old(self).min_latency_ms
            },
            final(self).max_latency_ms == if old(self).total_blocks == 0 || latency_ms
                > old(self).max_latency_ms {
                latency_ms
            } else {
                old(self).max_latency_ms
            },
            final(self).data_integrity_maintained == (old(self).data_integrity_maintained && !(
            outcome == BlockOutcome::Error && committed_anyway)),
    {
        let first = self.total_blocks == 0;
        if first || latency_ms < self.min_latency_ms {
            self.min_latency_ms = latency_ms;
        }
        if first || latency_ms > self.max_latency_ms {
            self.max_latency_ms = latency_ms;
        }
        proof {
            assert(self.total_latency_ms + latency_ms <= (self.total_blocks + 1) * u64::MAX)
                by (nonlinear_arith)
                requires
                    self.total_latency_ms <= self.total_blocks * u64::MAX,
                    latency_ms <= u64::MAX,
            ;
            assert((self.total_blocks + 1) * u64::MAX <= u64::MAX * u64::MAX) by (nonlinear_arith)
                requires
                    self.total_blocks < u64::MAX,
            ;
        }
        self.total_latency_ms = self.total_latency_ms + latency_ms as u128;
        self.total_blocks = self.total_blocks + 1;
        match outcome {
            BlockOutcome::Committed => {
                self.committed_blocks = self.committed_blocks + 1;
            },
            BlockOutcome::Failed => {
                self.failed_blocks = self.failed_blocks + 1;
            },
            BlockOutcome::Error => {
                self.error_blocks = self.error_blocks + 1;
                if committed_anyway {
                    self.data_integrity_maintained = false;
                }
            },
        }
    }
}

impl BenchmarkTally {
    /// Two runs taken together: counters and latency sums add up, the
    /// latency bounds are pooled over the runs that counted a block, and
    /// integrity holds only if it held in both.
    pub fn pool(&self, other: &BenchmarkTally) -> (r: BenchmarkTally)
        requires
            self.wf(),
            other.wf(),
            self.total_blocks + other.total_blocks <= u64::MAX,
        ensures
            r.wf(),
            r.total_blocks == self.total_blocks + other.total_blocks,
            r.committed_blocks == self.committed_blocks + other.committed_blocks,
            r.failed_blocks == self.failed_blocks + other.failed_blocks,
            r.error_blocks == self.error_blocks + other.error_blocks,
            r.total_latency_ms == self.total_latency_ms + other.total_latency_ms,
            r.min_latency_ms == if self.total_blocks == 0 {
                other.min_latency_ms
            } else if other.total_blocks == 0 || self.min_latency_ms <= other.min_latency_ms {
                self.min_latency_ms
            } else {
                other.min_latency_ms
            },
            r.max_latency_ms == if self.total_blocks == 0 {
                other.max_latency_ms
            } else if other.total_blocks == 0 || self.max_latency_ms >= other.max_latency_ms {
                self.max_latency_ms
            } else {
                other.max_latency_ms
            },
            r.data_integrity_maintained == (self.data_integrity_maintained
                && other.data_integrity_maintained),
    {
        let min_latency_ms = if self.total_blocks == 0 {
            other.min_latency_ms
        } else if other.total_blocks == 0 || self.min_latency_ms <= other.min_latency_ms {
            self.min_latency_ms
        } else {
            other.min_latency_ms
        };
        let max_latency_ms = if self.total_blocks == 0 {
            other.max_latency_ms
        } else if other.total_blocks == 0 || self.max_latency_ms >= other.max_latency_ms {
            self.max_latency_ms
        } else {
            other.max_latency_ms
        };
        proof {
            assert(self.total_latency_ms + other.total_latency_ms <= (self.total_blocks
                + other.total_blocks) * u64::MAX) by (nonlinear_arith)
                requires
                    self.total_latency_ms <= self.total_blocks * u64::MAX,
                    other.total_latency_ms <= other.total_blocks * u64::MAX,
            ;
            assert((self.total_blocks + other.total_blocks) * u64::MAX <= u64::MAX * u64::MAX)
                by (nonlinear_arith)
                requires
                    self.total_blocks + other.total_blocks <= u64::MAX,
            ;
        }
        BenchmarkTally {
            total_blocks: self.total_blocks + other.total_blocks,
            committed_blocks: self.committed_blocks + other.committed_blocks,
            failed_blocks: self.failed_blocks + other.failed_blocks,
            error_blocks: self.error_blocks + other.error_blocks,
            min_latency_ms,
            max_latency_ms,
            total_latency_ms: self.total_latency_ms + other.total_latency_ms,
            data_integrity_maintained: self.data_integrity_maintained
                && other.data_integrity_maintained,
        }
    }
}

/// How many of the tallies kept data integrity.
pub fn count_with_integrity(tallies: &Vec<BenchmarkTally>) -> (r: usize)
    ensures
        r == tallies@.filter(|t: BenchmarkTally| t.data_integrity_maintained).len(),
{
    let mut n: usize = 0;
    let mut i: usize = 0;
    while i < tallies.len()
        invariant
            i <= tallies@.len(),
            n == tallies@.subrange(0, i as int).filter(|t: BenchmarkTally| t.data_integrity_maintained).len(),
            n <= i,
        decreases tallies@.len() - i,
    {
        proof {
            reveal(Seq::filter);
            assert(tallies@.subrange(0, i + 1).drop_last() =~= tallies@.subrange(0, i as int));
        }
        if tallies[i].data_integrity_maintained {
            n = n + 1;
        }
        i = i + 1;
    }
    assert(tallies@.subrange(0, tallies@.len() as int) =~= tallies@);
    n
}

/// Scores on the 1-5 scale of the decentralization / security / scalability trade-off.
#[derive(Debug, Clone, Copy, PartialEq, Eq, Structural)]
pub struct TrilemmaScores {
    pub decentralization: u8,
    pub security: u8,
    pub scalability: u8,
}

/// One axis of the trade-off.
#[derive(Debug, Clone, Copy, PartialEq, Eq, Structural)]
pub enum TrilemmaAxis {
    Decentralization,
    Security,
    Scalability,
}

/// The protocols that have a tabulated score.
#[derive(Debug, Clone, Copy, PartialEq, Eq, Structural)]
pub enum ProtocolKind {
    Pbft,
    Gossip,
    Eventual,
    Quorumless,
    FlexiblePaxos,
    Other,
}

/// The fixed score of each protocol; others score 3 on every axis.
pub fn trilemma_scores(kind: ProtocolKind) -> (r: TrilemmaScores)
    ensures
        kind == ProtocolKind::Pbft ==> r == (TrilemmaScores { decentralization: 3, security: 5, scalability: 2 }),
        kind == ProtocolKind::Gossip ==> r == (TrilemmaScores { decentralization: 5, security: 2, scalability: 4 }),
        kind == ProtocolKind::Eventual ==> r == (TrilemmaScores { decentralization: 4, security: 2, scalability: 4 }),
        kind == ProtocolKind::Quorumless ==> r == (TrilemmaScores { decentralization: 4, security: 3, scalability: 3 }),
        kind == ProtocolKind::FlexiblePaxos ==> r == (TrilemmaScores { decentralization: 3, security: 4, scalability: 3 }),
        kind == ProtocolKind::Other ==> r == (TrilemmaScores { decentralization: 3, security: 3, scalability: 3 }),
{
    match kind {
        ProtocolKind::Pbft => TrilemmaScores { decentralization: 3, security: 5, scalability: 2 },
        ProtocolKind::Gossip => TrilemmaScores { decentralization: 5, security: 2, scalability: 4 },
        ProtocolKind::Eventual => TrilemmaScores { decentralization: 4, security: 2, scalability: 4 },
        ProtocolKind::Quorumless => TrilemmaScores { decentralization: 4, security: 3, scalability: 3 },
        ProtocolKind::FlexiblePaxos => TrilemmaScores { decentralization: 3, security: 4, scalability: 3 },
        ProtocolKind::Other => TrilemmaScores { decentralization: 3, security: 3, scalability: 3 },
    }
}

/// A score on one axis.
pub open spec fn axis_score(s: TrilemmaScores, axis: TrilemmaAxis) -> u8 {
    match axis {
        TrilemmaAxis::Decentralization => s.decentralization,
        TrilemmaAxis::Security => s.security,
        TrilemmaAxis::Scalability => s.scalability,
    }
}

/// The position of the highest score on `axis`, the first one on ties;
/// `None` for no scores.
pub fn best_on_axis(scores: &Vec<TrilemmaScores>, axis: TrilemmaAxis) -> (r: Option<usize>)
    ensures
        scores@.len() == 0 <==> r is None,
        r matches Some(i) ==> i < scores@.len() && (forall|k: int|
            0 <= k < scores@.len() ==> axis_score(scores@[k], axis) <= axis_score(
                #[trigger] scores@[i as int],
                axis,
            )) && (forall|k: int|
            0 <= k < i ==> axis_score(#[trigger] scores@[k], axis) < axis_score(scores@[i as int], axis)),
{
    if scores.len() == 0 {
        return None;
    }
    let mut best: usize = 0;
    let mut i: usize = 1;
    while i < scores.len()
        invariant
            1 <= i <= scores@.len(),
            best < i,
            forall|k: int| 0 <= k < i ==> axis_score(#[trigger] scores@[k], axis) <= axis_score(scores@[best as int], axis),
            forall|k: int| 0 <= k < best ==> axis_score(#[trigger] scores@[k], axis) < axis_score(scores@[best as int], axis),
        decreases scores@.len() - i,
    {
        let here = match axis {
            TrilemmaAxis::Decentralization => scores[i].decentralization,
            TrilemmaAxis::Security => scores[i].security,
            TrilemmaAxis::Scalability => scores[i].scalability,
        };
        let top = match axis {
            TrilemmaAxis::Decentralization => scores[best].decentralization,
            TrilemmaAxis::Security => scores[best].security,
            TrilemmaAxis::Scalability => scores[best].scalability,
        };
        if here > top {
            best = i;
        }
        i = i + 1;
    }
    Some(best)
}

impl TrilemmaScores {
    /// The lowest of the three scores.
    pub open spec fn lowest(&self) -> u8 {
        let m = if self.decentralization <= self.security {
            self.decentralization
        } else {
            self.security
        };
        if m <= self.scalability {
            m
        } else {
            self.scalability
        }
    }

    /// The axis with the lowest score; ties go to scalability, then
    /// security, then decentralization.
    pub fn primary_sacrifice(&self) -> (r: TrilemmaAxis)
        ensures
            r == TrilemmaAxis::Scalability <==> self.scalability == self.lowest(),
            r == TrilemmaAxis::Security <==> (self.scalability != self.lowest() && self.security
                == self.lowest()),
            r == TrilemmaAxis::Decentralization <==> (self.scalability != self.lowest()
                && self.security != self.lowest()),
    {
        let a = if self.decentralization <= self.security {
            self.decentralization
        } else {
            self.security
        };
        let lowest = if a <= self.scalability {
            a
        } else {
            self.scalability
        };
        if self.scalability == lowest {
            TrilemmaAxis::Scalability
        } else if self.security == lowest {
            TrilemmaAxis::Security
        } else {
            TrilemmaAxis::Decentralization
        }
    }
}

} // verus!
