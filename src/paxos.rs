use vstd::prelude::*;

use crate::block::{Block, BlockView};
use crate::consensus::{
    contains_index, insert_index, ConsensusMessage, ConsensusRequirements, ConsensusResult,
};

verus! {

/// Spacing of the proposal numbers of one replica, per replica of the cluster.
pub const PROPOSAL_STRIDE: u64 = 1000;

/// What one acceptor has promised and accepted.
pub struct AcceptorState {
    pub promised: Option<u64>,
    pub accepted: Option<(u64, Block)>,
}

/// Why a Flexible-Paxos configuration is refused.
#[derive(Debug, Clone, Copy, PartialEq, Eq, Structural)]
pub enum QuorumConfigError {
    /// `q1 + q2 <= total_nodes`: a phase-1 quorum could miss a phase-2 quorum.
    QuorumsDoNotIntersect,
    /// `q1 < ceil((total_nodes + 1) / 2)`.
    PhaseOneBelowMajority,
}

/// `ceil((n + 1) / 2)`, the least phase-1 quorum accepted.
pub open spec fn majority(n: nat) -> nat {
    (n + 2) / 2
}

/// Whether an acceptor that promised `promised` may promise `proposal`.
pub open spec fn promise_ok(promised: Option<u64>, proposal: u64) -> bool {
    match promised {
        None => true,
        Some(p) => p <= proposal,
    }
}

/// Whether an acceptor's accepted pair carries the value `v`.
pub open spec fn holds_value(accepted: Option<(u64, Block)>, v: BlockView) -> bool {
    match accepted {
        Some(a) => a.1@ == v,
        None => false,
    }
}

/// Two accepted pairs with the same proposal number and block.
pub open spec fn same_accepted(x: Option<(u64, Block)>, y: Option<(u64, Block)>) -> bool {
    match (x, y) {
        (None, None) => true,
        (Some(a), Some(b)) => a.0 == b.0 && a.1@ == b.1@,
        _ => false,
    }
}

/// The default quorums for `n` acceptors: `Q1 = (n + 1) / 2 + 1` and
/// `Q2 = n / 2`. They always meet the construction's conditions.
pub fn default_quorums(n: usize) -> (r: (usize, usize))
    requires
        n < usize::MAX,
    ensures
        r.0 == (n + 1) / 2 + 1,
        r.1 == n / 2,
        r.0 + r.1 > n,
        r.0 >= majority(n as nat),
{
    ((n + 1) / 2 + 1, n / 2)
}

/// Flexible Paxos over acceptors simulated in this process: a phase-1
/// quorum of `q1_size` promises, then a phase-2 quorum of `q2_size` accepts.
pub struct FlexiblePaxos {
    node_id: usize,
    total_nodes: usize,
    q1_size: usize,
    q2_size: usize,
    acceptors: Vec<AcceptorState>,
    current_proposal: u64,
    committed: Vec<u64>,
    chosen: Ghost<Option<BlockView>>,
}

impl FlexiblePaxos {
    /// The value every acceptor holds once any proposal has reached phase 2.
    pub closed spec fn decided(&self) -> Option<BlockView> {
        self.chosen@
    }

    pub closed spec fn committed_set(&self) -> Set<u64> {
        self.committed@.to_set()
    }

    pub closed spec fn spec_total_nodes(&self) -> nat {
        self.total_nodes as nat
    }

    pub closed spec fn spec_q1(&self) -> nat {
        self.q1_size as nat
    }

    pub closed spec fn spec_q2(&self) -> nat {
        self.q2_size as nat
    }

    pub closed spec fn last_proposal(&self) -> nat {
        self.current_proposal as nat
    }

    /// Whether one more proposal number fits in a `u64`.
    pub open spec fn has_next_proposal(&self) -> bool {
        self.last_proposal() + self.spec_total_nodes() * PROPOSAL_STRIDE <= u64::MAX
    }

    pub closed spec fn wf(&self) -> bool {
        &&& self.acceptors@.len() == self.total_nodes
        &&& self.total_nodes * PROPOSAL_STRIDE <= u64::MAX
        &&& self.q1_size + self.q2_size > self.total_nodes
        &&& self.q1_size >= majority(self.total_nodes as nat)
        &&& self.committed@.no_duplicates()
        &&& self.chosen@ is Some ==> self.total_nodes >= self.q1_size
        &&& forall|i: int|
            0 <= i < self.acceptors@.len() ==> promise_ok(
                (#[trigger] self.acceptors@[i]).promised,
                self.current_proposal,
            )
        &&& match self.chosen@ {
            Some(v) => self.acceptors@.len() > 0 && forall|i: int|
                0 <= i < self.acceptors@.len() ==> holds_value(
                    (#[trigger] self.acceptors@[i]).accepted,
                    v,
                ),
            None => forall|i: int|
                0 <= i < self.acceptors@.len() ==> (#[trigger] self.acceptors@[i]).accepted is None,
        }
    }

    /// Builds the engine; refuses quorums that do not guarantee intersection.
    pub fn new(node_id: usize, total_nodes: usize, q1_size: usize, q2_size: usize) -> (r: Result<
        FlexiblePaxos,
        QuorumConfigError,
    >)
        requires
            node_id * PROPOSAL_STRIDE <= u64::MAX,
            total_nodes * PROPOSAL_STRIDE <= u64::MAX,
        ensures
            q1_size + q2_size <= total_nodes ==> r == Err::<FlexiblePaxos, QuorumConfigError>(
                QuorumConfigError::QuorumsDoNotIntersect,
            ),
            q1_size + q2_size > total_nodes && q1_size < majority(total_nodes as nat) ==> r == Err::<
                FlexiblePaxos,
                QuorumConfigError,
            >(QuorumConfigError::PhaseOneBelowMajority),
            q1_size + q2_size > total_nodes && q1_size >= majority(total_nodes as nat) ==> (
            r matches Ok(p) && p.wf() && p.decided() is None && p.committed_set() == Set::<
                u64,
            >::empty() && p.spec_total_nodes() == total_nodes && p.spec_q1() == q1_size
                && p.spec_q2() == q2_size && p.last_proposal() == node_id * PROPOSAL_STRIDE),
    {
        if (q1_size as u128) + (q2_size as u128) <= total_nodes as u128 {
            return Err(QuorumConfigError::QuorumsDoNotIntersect);
        }
        if (q1_size as u128) < ((total_nodes as u128) + 2) / 2 {
            return Err(QuorumConfigError::PhaseOneBelowMajority);
        }
        let mut acceptors: Vec<AcceptorState> = Vec::new();
        let mut i: usize = 0;
        while i < total_nodes
            invariant
                i <= total_nodes,
                acceptors@.len() == i,
                forall|k: int|
                    0 <= k < i ==> (#[trigger] acceptors@[k]).promised is None
                        && acceptors@[k].accepted is None,
            decreases total_nodes - i,
        {
            acceptors.push(AcceptorState { promised: None, accepted: None });
            i = i + 1;
        }
        let p = FlexiblePaxos {
            node_id,
            total_nodes,
            q1_size,
            q2_size,
            acceptors,
            current_proposal: node_id as u64 * PROPOSAL_STRIDE,
            committed: Vec::new(),
            chosen: Ghost(None),
        };
        assert(p.committed@.to_set() =~= Set::<u64>::empty());
        Ok(p)
    }

    /// Phase 1 at one acceptor: promise `proposal` if it exceeds every earlier promise.
    /// Returns the acceptor's accepted proposal on a promise, `None` on a refusal.
    fn handle_prepare(&mut self, from: usize, proposal: u64) -> (r: Option<Option<(u64, Block)>>)
        requires
            from < old(self).acceptors@.len(),
        ensures
            final(self).acceptors@.len() == old(self).acceptors@.len(),
            forall|k: int|
                0 <= k < old(self).acceptors@.len() && k != from ==> #[trigger] final(self).acceptors@[k] == old(self).acceptors@[k],
            final(self).acceptors@[from as int].accepted == old(self).acceptors@[from as int].accepted,
            (match old(self).acceptors@[from as int].promised {
                None => true,
                Some(p) => proposal > p,
            }) ==> (r matches Some(acc) && final(self).acceptors@[from as int].promised == Some(
                proposal,
            ) && same_accepted(acc, old(self).acceptors@[from as int].accepted)),
            !(match old(self).acceptors@[from as int].promised {
                None => true,
                Some(p) => proposal > p,
            }) ==> r is None && final(self).acceptors@ == old(self).acceptors@,
            final(self).node_id == old(self).node_id,
            final(self).total_nodes == old(self).total_nodes,
            final(self).q1_size == old(self).q1_size,
            final(self).q2_size == old(self).q2_size,
            final(self).current_proposal == old(self).current_proposal,
            final(self).committed == old(self).committed,
            final(self).chosen == old(self).chosen,
    {
        let should_accept = match self.acceptors[from].promised {
            None => true,
            Some(p) => proposal > p,
        };
        if should_accept {
            let mut a = AcceptorState { promised: None, accepted: None };
            self.acceptors.set_and_swap(from, &mut a);
            a.promised = Some(proposal);
            let reply = match &a.accepted {
                None => None,
                Some((p, b)) => Some((*p, b.duplicate())),
            };
            self.acceptors.set(from, a);
            Some(reply)
        } else {
            None
        }
    }

    /// Phase 2 at one acceptor: accept `(proposal, value)` unless it promised
    /// a higher proposal. Returns whether it accepted; `None`, with nothing
    /// changed, when `from` is no acceptor.
    fn handle_accept(&mut self, from: usize, proposal: u64, value: &Block) -> (r: Option<bool>)
        ensures
            final(self).acceptors@.len() == old(self).acceptors@.len(),
            forall|k: int|
                0 <= k < old(self).acceptors@.len() && k != from ==> #[trigger] final(self).acceptors@[k] == old(self).acceptors@[k],
            from >= old(self).acceptors@.len() ==> r is None,
            from < old(self).acceptors@.len() ==> r == Some(
                match old(self).acceptors@[from as int].promised {
                    None => true,
                    Some(p) => proposal >= p,
                },
            ),
            r == Some(true) ==> final(self).acceptors@[from as int].promised == Some(proposal)
                && holds_value(final(self).acceptors@[from as int].accepted, value@),
            r == Some(true) ==> (final(self).acceptors@[from as int].accepted matches Some(a) && a.0
                == proposal),
            r != Some(true) ==> final(self).acceptors@ == old(self).acceptors@,
            final(self).node_id == old(self).node_id,
            final(self).total_nodes == old(self).total_nodes,
            final(self).q1_size == old(self).q1_size,
            final(self).q2_size == old(self).q2_size,
            final(self).current_proposal == old(self).current_proposal,
            final(self).committed == old(self).committed,
            final(self).chosen == old(self).chosen,
    {
        if from >= self.acceptors.len() {
            return None;
        }
        let should_accept = match self.acceptors[from].promised {
            None => true,
            Some(p) => proposal >= p,
        };
        if should_accept {
            let a = AcceptorState {
                promised: Some(proposal),
                accepted: Some((proposal, value.duplicate())),
            };
            self.acceptors.set(from, a);
        }
        Some(should_accept)
    }

    /// Runs both phases for `block` with a fresh proposal number. Once any
    /// proposal has reached phase 2, every later one carries its value: two
    /// proposals that commit, commit the same block.
    pub fn propose(&mut self, block: &Block) -> (r: ConsensusResult)
        requires
            old(self).wf(),
        ensures
            final(self).wf(),
            final(self).spec_total_nodes() == old(self).spec_total_nodes(),
            final(self).spec_q1() == old(self).spec_q1(),
            final(self).spec_q2() == old(self).spec_q2(),
            old(self).committed_set().subset_of(final(self).committed_set()),
            old(self).decided() matches Some(v) ==> final(self).decided() == Some(v),
            !old(self).has_next_proposal() ==> r is Rejected && final(self).decided() == old(self).decided() && final(self).committed_set() == old(self).committed_set(),
            old(self).has_next_proposal() && old(self).spec_total_nodes() < old(self).spec_q1()
                ==> r is Pending && final(self).decided() == old(self).decided() && final(self).committed_set() == old(self).committed_set(),
            old(self).has_next_proposal() && old(self).spec_total_nodes() >= old(self).spec_q1()
                ==> final(self).decided() == Some(
                match old(self).decided() {
                    Some(v) => v,
                    None => block@,
                },
            ),
            old(self).has_next_proposal() && old(self).spec_total_nodes() >= old(self).spec_q1()
                && old(self).spec_total_nodes() >= old(self).spec_q2() ==> (r matches ConsensusResult::Committed(
                b,
            ) && Some(b@) == final(self).decided() && final(self).committed_set() == old(self).committed_set().insert(b.index)),
            old(self).has_next_proposal() && old(self).spec_total_nodes() >= old(self).spec_q1()
                && old(self).spec_total_nodes() < old(self).spec_q2() ==> r is Pending && final(self).committed_set() == old(self).committed_set(),
            r matches ConsensusResult::Committed(b) ==> Some(b@) == final(self).decided(),
            old(self).has_next_proposal() ==> final(self).last_proposal() == old(self).last_proposal()
                + old(self).spec_total_nodes() * PROPOSAL_STRIDE,
            !old(self).has_next_proposal() ==> final(self).last_proposal() == old(self).last_proposal(),
    {
        let step = self.total_nodes as u64 * PROPOSAL_STRIDE;
        if self.current_proposal > u64::MAX - step {
            return ConsensusResult::Rejected("no proposal number is left".to_owned());
        }
        let proposal = self.current_proposal + step;
        proof {
            assert(proposal > self.current_proposal || self.total_nodes == 0);
        }
        self.current_proposal = proposal;
        let ghost start = self.acceptors@;
        // Phase 1: every acceptor is asked to promise.
        let mut promises: usize = 0;
        let mut highest: Option<(u64, Block)> = None;
        let mut i: usize = 0;
        while i < self.total_nodes
            invariant
                old(self).wf(),
                i <= self.total_nodes,
                self.acceptors@.len() == self.total_nodes,
                self.total_nodes == old(self).total_nodes,
                self.q1_size == old(self).q1_size,
                self.q2_size == old(self).q2_size,
                self.committed == old(self).committed,
                self.chosen == old(self).chosen,
                self.current_proposal == proposal,
                start == old(self).acceptors@,
                self.total_nodes > 0 ==> proposal > old(self).current_proposal,
                promises == i,
                forall|k: int|
                    0 <= k < i ==> (#[trigger] self.acceptors@[k]).promised == Some(proposal)
                        && self.acceptors@[k].accepted == start[k].accepted,
                forall|k: int| i <= k < self.total_nodes ==> #[trigger] self.acceptors@[k] == start[k],
                self.chosen@ is Some && i > 0 ==> holds_value(highest, self.chosen@->0),
                self.chosen@ is None ==> highest is None,
                i == 0 ==> highest is None,
            decreases self.total_nodes - i,
        {
            proof {
                assert(promise_ok(start[i as int].promised, old(self).current_proposal));
                if let Some(v) = self.chosen@ {
                    assert(holds_value(start[i as int].accepted, v));
                } else {
                    assert(start[i as int].accepted is None);
                }
            }
            let reply = self.handle_prepare(i, proposal);
            match reply {
                Some(accepted) => {
                    promises = promises + 1;
                    match accepted {
                        Some((prop_id, value)) => {
                            proof {
                                if let Some(v) = self.chosen@ {
                                    assert(value@ == v);
                                }
                            }
                            let replace = match &highest {
                                None => true,
                                Some(h) => prop_id > h.0,
                            };
                            if replace {
                                highest = Some((prop_id, value));
                            }
                        },
                        None => {},
                    }
                },
                None => {
                    // Unreachable: the new number exceeds every promise made.
                    assert(false);
                },
            }
            i = i + 1;
        }
        if promises < self.q1_size {
            assert(self.chosen@ is None);
            return ConsensusResult::Pending;
        }
        // Phase 2: the highest value already accepted, else the new block.
        let value = match highest {
            Some((_, accepted_block)) => accepted_block,
            None => block.duplicate(),
        };
        let ghost mid = self.acceptors@;
        let mut accepted: usize = 0;
        let mut j: usize = 0;
        while j < self.total_nodes
            invariant
                old(self).wf(),
                j <= self.total_nodes,
                self.acceptors@.len() == self.total_nodes,
                self.total_nodes == old(self).total_nodes,
                self.q1_size == old(self).q1_size,
                self.q2_size == old(self).q2_size,
                self.committed == old(self).committed,
                self.chosen == old(self).chosen,
                self.current_proposal == proposal,
                accepted == j,
                mid.len() == self.total_nodes,
                forall|k: int|
                    0 <= k < j ==> (#[trigger] self.acceptors@[k]).promised == Some(proposal)
                        && holds_value(self.acceptors@[k].accepted, value@),
                forall|k: int| j <= k < self.total_nodes ==> #[trigger] self.acceptors@[k] == mid[k],
                forall|k: int| 0 <= k < self.total_nodes ==> (#[trigger] mid[k]).promised == Some(proposal),
            decreases self.total_nodes - j,
        {
            match self.handle_accept(j, proposal, &value) {
                Some(true) => {
                    accepted = accepted + 1;
                },
                _ => {
                    // Unreachable: the proposal equals every promise made in phase 1.
                    assert(false);
                },
            }
            j = j + 1;
        }
        self.chosen = Ghost(Some(value@));
        if accepted >= self.q2_size {
            insert_index(&mut self.committed, value.index);
            ConsensusResult::Committed(value)
        } else {
            ConsensusResult::Pending
        }
    }

    /// Messages of the generic transport are not used: acceptors are local.
    pub fn handle_message(&mut self, message: &ConsensusMessage) -> (r: ConsensusResult)
        ensures
            r is Pending,
            *final(self) == *old(self),
    {
        ConsensusResult::Pending
    }

    pub fn is_committed(&self, block_index: u64) -> (r: bool)
        ensures
            r == self.committed_set().contains(block_index),
    {
        contains_index(&self.committed, block_index)
    }

    pub fn name(&self) -> (r: &'static str)
        ensures
            r@ == "Flexible Paxos"@,
    {
        proof {
            reveal_strlit("Flexible Paxos");
        }
        "Flexible Paxos"
    }

    pub fn requirements(&self) -> (r: ConsensusRequirements)
        ensures
            r.requires_majority,
            r.min_nodes matches Some(q) && q == self.spec_q1(),
    {
        ConsensusRequirements {
            requires_majority: true,
            min_nodes: Some(self.q1_size),
            description: "Flexible Paxos with independent phase-1 and phase-2 quorums; Q1 must intersect with previous Q2.".to_owned(),
        }
    }
}

} // verus!
