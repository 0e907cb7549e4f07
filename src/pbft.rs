use vstd::prelude::*;

use crate::block::Block;
use crate::clock::unix_now;
use crate::consensus::{
    contains_index, insert_index, ConsensusMessage, ConsensusRequirements, ConsensusResult,
};
use crate::quorum::{lemma_pbft_agreement, pbft_faults, pbft_quorum, within};
use vstd::set_lib::lemma_len_subset;
use crate::votes::{
    find_entry, lemma_table_absent, lemma_table_lookup, lemma_with_vote_voters, record_vote,
    table_view, table_wf, voter_list, voters, with_vote, VoteEntry, VoteSet,
};

verus! {

/// The three PBFT phases.
#[derive(Debug, Clone, Copy, PartialEq, Eq, Structural)]
pub enum MessageType {
    PrePrepare,
    Prepare,
    Commit,
}

/// A PBFT vote. Only a pre-prepare carries the block, as JSON.
#[derive(Debug, Clone)]
pub struct PBFTMessage {
    pub msg_type: MessageType,
    pub view: u64,
    pub sequence: u64,
    pub block_hash: String,
    pub block_data_json: Option<String>,
    pub node_id: usize,
    pub timestamp: i64,
}

/// One replica's votes, per phase and `(view, sequence)`, and its commit set.
pub struct NodeState {
    pub node_id: usize,
    pub view: u64,
    pub sequence: u64,
    pub pre_prepares: Vec<VoteSet>,
    pub prepares: Vec<VoteSet>,
    pub commits: Vec<VoteSet>,
    pub committed_blocks: Vec<u64>,
}

pub struct NodeStateView {
    pub node_id: usize,
    pub view: u64,
    pub sequence: u64,
    pub pre_prepares: Map<(u64, u64), VoteEntry>,
    pub prepares: Map<(u64, u64), VoteEntry>,
    pub commits: Map<(u64, u64), VoteEntry>,
    pub committed: Set<u64>,
}

impl View for NodeState {
    type V = NodeStateView;

    open spec fn view(&self) -> NodeStateView {
        NodeStateView {
            node_id: self.node_id,
            view: self.view,
            sequence: self.sequence,
            pre_prepares: table_view(self.pre_prepares@),
            prepares: table_view(self.prepares@),
            commits: table_view(self.commits@),
            committed: self.committed_blocks@.to_set(),
        }
    }
}

/// A fresh replica: view and sequence zero, no votes, nothing committed.
pub open spec fn initial_node_state(node_id: usize) -> NodeStateView {
    NodeStateView {
        node_id,
        view: 0,
        sequence: 0,
        pre_prepares: Map::empty(),
        prepares: Map::empty(),
        commits: Map::empty(),
        committed: Set::empty(),
    }
}

/// A vote for `key` with another hash than the one already recorded there.
pub open spec fn conflicts(
    m: Map<(u64, u64), VoteEntry>,
    key: (u64, u64),
    block_hash: Seq<char>,
) -> bool {
    m.contains_key(key) && m[key].block_hash != block_hash
}

/// A pre-prepare for `key` with another hash than the one already accepted there.
pub open spec fn equivocates(
    s: NodeStateView,
    key: (u64, u64),
    block_hash: Seq<char>,
) -> bool {
    conflicts(s.pre_prepares, key, block_hash)
}

/// State after a pre-prepare from `sender`; an equivocating one is ignored.
pub open spec fn after_pre_prepare(
    s: NodeStateView,
    key: (u64, u64),
    block_hash: Seq<char>,
    sender: usize,
) -> NodeStateView {
    if equivocates(s, key, block_hash) {
        s
    } else {
        NodeStateView { pre_prepares: with_vote(s.pre_prepares, key, block_hash, sender), ..s }
    }
}

/// State after a prepare from `sender`: the sender joins the set for `key`.
pub open spec fn after_prepare(
    s: NodeStateView,
    key: (u64, u64),
    block_hash: Seq<char>,
    sender: usize,
) -> NodeStateView {
    NodeStateView { prepares: with_vote(s.prepares, key, block_hash, sender), ..s }
}

/// Whether the prepares for `key`, with `sender` added, reach the quorum
/// among `n` replicas.
pub open spec fn prepare_quorum(
    s: NodeStateView,
    key: (u64, u64),
    block_hash: Seq<char>,
    sender: usize,
    n: nat,
) -> bool {
    voters(with_vote(s.prepares, key, block_hash, sender), key).len() >= pbft_quorum(n)
}

/// Whether the commits for `key`, with `sender` added, reach the quorum
/// among `n` replicas.
pub open spec fn commit_quorum(
    s: NodeStateView,
    key: (u64, u64),
    block_hash: Seq<char>,
    sender: usize,
    n: nat,
) -> bool {
    voters(with_vote(s.commits, key, block_hash, sender), key).len() >= pbft_quorum(n)
}

/// State after a commit from `sender` among `n` replicas: the sender joins
/// the set for `key`, and the sequence joins the commit set once that set
/// reaches the quorum.
pub open spec fn after_commit(
    s: NodeStateView,
    key: (u64, u64),
    block_hash: Seq<char>,
    sender: usize,
    n: nat,
) -> NodeStateView {
    let c = with_vote(s.commits, key, block_hash, sender);
    NodeStateView {
        commits: c,
        committed: if voters(c, key).len() >= pbft_quorum(n) {
            s.committed.insert(key.1)
        } else {
            s.committed
        },
        ..s
    }
}

/// Every committed sequence holds, in some view, a quorum of commits.
pub open spec fn committed_by_quorum(s: NodeStateView, n: nat) -> bool {
    forall|seq: u64|
        #[trigger] s.committed.contains(seq) ==> exists|v: u64|
            voters(s.commits, (v, seq)).len() >= pbft_quorum(n)
}

/// A commit keeps every committed sequence backed by a commit quorum.
pub proof fn lemma_commit_keeps_quorum_backing(
    s: NodeStateView,
    key: (u64, u64),
    block_hash: Seq<char>,
    sender: usize,
    n: nat,
)
    requires
        committed_by_quorum(s, n),
    ensures
        committed_by_quorum(after_commit(s, key, block_hash, sender, n), n),
{
    let t = after_commit(s, key, block_hash, sender, n);
    lemma_with_vote_voters(s.commits, key, block_hash, sender);
    assert forall|seq: u64| #[trigger] t.committed.contains(seq) implies exists|v: u64|
        voters(t.commits, (v, seq)).len() >= pbft_quorum(n) by {
        if s.committed.contains(seq) {
            let v = choose|v: u64| voters(s.commits, (v, seq)).len() >= pbft_quorum(n);
            let k = (v, seq);
            vstd::seq_lib::seq_to_set_is_finite(voter_list(t.commits, k));
            if k != key {
                assert(voters(t.commits, k) == voters(s.commits, k));
            } else {
                lemma_len_subset(voters(s.commits, k), voters(t.commits, k));
            }
            assert(voters(t.commits, (v, seq)).len() >= pbft_quorum(n));
        } else {
            assert(seq == key.1);
            assert(voters(t.commits, (key.0, seq)).len() >= pbft_quorum(n));
        }
    }
}

/// A vote only adds its sender: no recorded sender is ever dropped.
pub proof fn lemma_votes_only_grow(
    m: Map<(u64, u64), VoteEntry>,
    key: (u64, u64),
    block_hash: Seq<char>,
    sender: usize,
)
    ensures
        forall|k: (u64, u64)| #[trigger]
            voters(m, k).subset_of(voters(with_vote(m, key, block_hash, sender), k)),
{
    lemma_with_vote_voters(m, key, block_hash, sender);
}

/// A vote counted a second time leaves the table as the first time left it.
pub proof fn lemma_vote_idempotent(
    m: Map<(u64, u64), VoteEntry>,
    key: (u64, u64),
    block_hash: Seq<char>,
    sender: usize,
)
    ensures
        with_vote(with_vote(m, key, block_hash, sender), key, block_hash, sender) == with_vote(
            m,
            key,
            block_hash,
            sender,
        ),
{
    let m1 = with_vote(m, key, block_hash, sender);
    assert(voter_list(m1, key).contains(sender)) by {
        let list = voter_list(m, key);
        if !list.contains(sender) {
            assert(list.push(sender)[list.len() as int] == sender);
        }
    }
    assert(with_vote(m1, key, block_hash, sender) =~= m1);
}

/// A sender already counted in a quorate vote set leaves it quorate, with
/// the same members and so the same size.
pub proof fn lemma_duplicate_sender_keeps_quorum(
    m: Map<(u64, u64), VoteEntry>,
    key: (u64, u64),
    block_hash: Seq<char>,
    sender: usize,
    n: nat,
)
    requires
        voters(m, key).contains(sender),
        voters(m, key).len() >= pbft_quorum(n),
    ensures
        voters(with_vote(m, key, block_hash, sender), key) == voters(m, key),
        voters(with_vote(m, key, block_hash, sender), key).len() >= pbft_quorum(n),
{
    assert(voter_list(m, key).contains(sender));
    assert(with_vote(m, key, block_hash, sender) =~= m);
}

/// Handling the same PBFT message twice leaves the replica as handling it once.
pub proof fn lemma_pbft_handlers_idempotent(
    s: NodeStateView,
    key: (u64, u64),
    block_hash: Seq<char>,
    sender: usize,
    n: nat,
)
    ensures
        after_pre_prepare(after_pre_prepare(s, key, block_hash, sender), key, block_hash, sender)
            == after_pre_prepare(s, key, block_hash, sender),
        after_prepare(after_prepare(s, key, block_hash, sender), key, block_hash, sender)
            == after_prepare(s, key, block_hash, sender),
        after_commit(after_commit(s, key, block_hash, sender, n), key, block_hash, sender, n)
            == after_commit(s, key, block_hash, sender, n),
{
    lemma_vote_idempotent(s.pre_prepares, key, block_hash, sender);
    lemma_vote_idempotent(s.prepares, key, block_hash, sender);
    lemma_vote_idempotent(s.commits, key, block_hash, sender);
    let s1 = after_commit(s, key, block_hash, sender, n);
    let c = with_vote(s.commits, key, block_hash, sender);
    if voters(c, key).len() >= pbft_quorum(n) {
        assert(s1.committed.insert(key.1) =~= s1.committed);
    }
    assert(after_commit(s1, key, block_hash, sender, n) =~= s1);
}

/// PBFT safety across replicas: with `n = 3f + 1` replicas of which at most
/// `f` are faulty, two replicas that each hold a commit quorum for `key`
/// agree on its block hash, provided each correct replica sends one commit
/// per key (`vote`) and the correct senders in each replica's commit set
/// sent the hash that replica records for the key.
pub proof fn lemma_replicas_agree(
    s1: NodeStateView,
    s2: NodeStateView,
    key: (u64, u64),
    n: nat,
    faulty: Set<usize>,
    vote: spec_fn(usize) -> Seq<char>,
)
    requires
        n >= 1,
        (n - 1) % 3 == 0,
        faulty.finite(),
        faulty.len() <= pbft_faults(n),
        within(voters(s1.commits, key), n),
        within(voters(s2.commits, key), n),
        voters(s1.commits, key).len() >= pbft_quorum(n),
        voters(s2.commits, key).len() >= pbft_quorum(n),
        forall|x: usize| #[trigger]
            voters(s1.commits, key).contains(x) && !faulty.contains(x) ==> vote(x)
                == s1.commits[key].block_hash,
        forall|x: usize| #[trigger]
            voters(s2.commits, key).contains(x) && !faulty.contains(x) ==> vote(x)
                == s2.commits[key].block_hash,
    ensures
        s1.commits[key].block_hash == s2.commits[key].block_hash,
{
    vstd::seq_lib::seq_to_set_is_finite(voter_list(s1.commits, key));
    vstd::seq_lib::seq_to_set_is_finite(voter_list(s2.commits, key));
    lemma_pbft_agreement(
        n,
        voters(s1.commits, key),
        voters(s2.commits, key),
        faulty,
        vote,
        s1.commits[key].block_hash,
        s2.commits[key].block_hash,
    );
}

/// Two replicas of one view `v` (no view change is in scope) that both
/// report `seq` committed agree on the block hash their commit quorums
/// record, when at most `f` of `n = 3f + 1` replicas are faulty, each correct
/// replica sends one commit per key (`vote`), and the correct senders in
/// each commit set sent the hash that replica records.
pub proof fn lemma_committed_replicas_agree(
    s1: NodeStateView,
    s2: NodeStateView,
    v: u64,
    seq: u64,
    n: nat,
    faulty: Set<usize>,
    vote: spec_fn(usize) -> Seq<char>,
)
    requires
        n >= 1,
        (n - 1) % 3 == 0,
        committed_by_quorum(s1, n),
        committed_by_quorum(s2, n),
        s1.committed.contains(seq),
        s2.committed.contains(seq),
        forall|k: (u64, u64)| #[trigger] s1.commits.contains_key(k) ==> k.0 == v,
        forall|k: (u64, u64)| #[trigger] s2.commits.contains_key(k) ==> k.0 == v,
        faulty.finite(),
        faulty.len() <= pbft_faults(n),
        within(voters(s1.commits, (v, seq)), n),
        within(voters(s2.commits, (v, seq)), n),
        forall|x: usize| #[trigger]
            voters(s1.commits, (v, seq)).contains(x) && !faulty.contains(x) ==> vote(x)
                == s1.commits[(v, seq)].block_hash,
        forall|x: usize| #[trigger]
            voters(s2.commits, (v, seq)).contains(x) && !faulty.contains(x) ==> vote(x)
                == s2.commits[(v, seq)].block_hash,
    ensures
        s1.commits[(v, seq)].block_hash == s2.commits[(v, seq)].block_hash,
{
    let v1 = choose|w: u64| voters(s1.commits, (w, seq)).len() >= pbft_quorum(n);
    let v2 = choose|w: u64| voters(s2.commits, (w, seq)).len() >= pbft_quorum(n);
    assert(Seq::<usize>::empty().to_set() =~= Set::<usize>::empty());
    assert(s1.commits.contains_key((v1, seq)));
    assert(s2.commits.contains_key((v2, seq)));
    assert(v1 == v && v2 == v);
    lemma_replicas_agree(s1, s2, (v, seq), n, faulty, vote);
}

impl NodeState {
    /// Vote tables are well formed and the commit list has no repeats.
    pub open spec fn wf(&self) -> bool {
        &&& table_wf(self.pre_prepares@)
        &&& table_wf(self.prepares@)
        &&& table_wf(self.commits@)
        &&& self.committed_blocks@.no_duplicates()
    }

    pub fn new(node_id: usize) -> (r: NodeState)
        ensures
            r.wf(),
            r@ == initial_node_state(node_id),
    {
        let r = NodeState {
            node_id,
            view: 0,
            sequence: 0,
            pre_prepares: Vec::new(),
            prepares: Vec::new(),
            commits: Vec::new(),
            committed_blocks: Vec::new(),
        };
        assert(r@.committed =~= Set::<u64>::empty());
        assert(r@ =~= initial_node_state(node_id));
        r
    }

    /// `2f + 1` with `f = (total_nodes - 1) / 3`.
    pub fn quorum_size(&self, total_nodes: usize) -> (r: usize)
        requires
            total_nodes >= 1,
        ensures
            r == pbft_quorum(total_nodes as nat),
    {
        let f = (total_nodes - 1) / 3;
        assert(2 * f + 1 <= total_nodes);
        2 * f + 1
    }

    /// Whether `votes` holds at least a quorum of entries.
    pub fn has_quorum(&self, votes: &[usize], total_nodes: usize) -> (r: bool)
        requires
            total_nodes >= 1,
        ensures
            r == (votes@.len() >= pbft_quorum(total_nodes as nat)),
    {
        votes.len() >= self.quorum_size(total_nodes)
    }
}

/// A PBFT replica: its vote state and the cluster it belongs to.
pub struct PBFTManager {
    pub state: NodeState,
    pub total_nodes: usize,
    pub node_addresses: Vec<String>,
}

impl PBFTManager {
    pub open spec fn wf(&self) -> bool {
        &&& self.state.wf()
        &&& self.total_nodes >= 1
        &&& committed_by_quorum(self.state@, self.total_nodes as nat)
    }

    /// Whether `sequence` is led by this replica: `sequence mod N` is its id.
    pub open spec fn leads(&self, sequence: u64) -> bool {
        sequence % (self.total_nodes as u64) == self.state.node_id as u64
    }

    pub fn new(node_id: usize, total_nodes: usize, node_addresses: Vec<String>) -> (r: PBFTManager)
        requires
            total_nodes >= 1,
        ensures
            r.wf(),
            r.state@ == initial_node_state(node_id),
            r.total_nodes == total_nodes,
            r.node_addresses@ == node_addresses@,
    {
        PBFTManager { state: NodeState::new(node_id), total_nodes, node_addresses }
    }

    /// Records a pre-prepare; one whose hash differs from the pre-prepare
    /// already accepted for its `(view, sequence)` is ignored. Returns whether
    /// the pair now has a quorum of pre-prepares.
    pub fn handle_pre_prepare(&mut self, msg: &PBFTMessage) -> (r: bool)
        requires
            old(self).wf(),
        ensures
            final(self).wf(),
            final(self).total_nodes == old(self).total_nodes,
            final(self).node_addresses == old(self).node_addresses,
            final(self).state@ == after_pre_prepare(
                old(self).state@,
                (msg.view, msg.sequence),
                msg.block_hash@,
                msg.node_id,
            ),
            r == (!equivocates(old(self).state@, (msg.view, msg.sequence), msg.block_hash@)
                && voters(final(self).state@.pre_prepares, (msg.view, msg.sequence)).len()
                >= pbft_quorum(old(self).total_nodes as nat)),
            forall|k: (u64, u64)| #[trigger]
                voters(old(self).state@.pre_prepares, k).subset_of(
                    voters(final(self).state@.pre_prepares, k),
                ),
            old(self).state@.committed == final(self).state@.committed,
    {
        let key = (msg.view, msg.sequence);
        let ghost s = self.state@;
        proof {
            lemma_votes_only_grow(s.pre_prepares, key, msg.block_hash@, msg.node_id);
        }
        let conflict = match find_entry(&self.state.pre_prepares, msg.view, msg.sequence) {
            Some(i) => {
                proof {
                    lemma_table_lookup(self.state.pre_prepares@, i as int);
                }
                !(self.state.pre_prepares[i].block_hash == msg.block_hash)
            },
            None => {
                proof {
                    lemma_table_absent(self.state.pre_prepares@, key);
                }
                false
            },
        };
        if conflict {
            return false;
        }
        let count = record_vote(
            &mut self.state.pre_prepares,
            msg.view,
            msg.sequence,
            &msg.block_hash,
            msg.node_id,
        );
        let q = self.state.quorum_size(self.total_nodes);
        proof {
            assert(self.state@ =~= after_pre_prepare(s, key, msg.block_hash@, msg.node_id));
            assert(self.state@.commits == s.commits && self.state@.committed == s.committed);
            assert(committed_by_quorum(self.state@, self.total_nodes as nat));
        }
        count >= q
    }

    /// Records a prepare. Returns whether its `(view, sequence)` now has a
    /// quorum of prepares, which makes this replica prepared.
    pub fn handle_prepare(&mut self, msg: &PBFTMessage) -> (r: bool)
        requires
            old(self).wf(),
        ensures
            final(self).wf(),
            final(self).total_nodes == old(self).total_nodes,
            final(self).node_addresses == old(self).node_addresses,
            final(self).state@ == after_prepare(
                old(self).state@,
                (msg.view, msg.sequence),
                msg.block_hash@,
                msg.node_id,
            ),
            voters(final(self).state@.prepares, (msg.view, msg.sequence)) == voters(
                old(self).state@.prepares,
                (msg.view, msg.sequence),
            ).insert(msg.node_id),
            r == (voters(final(self).state@.prepares, (msg.view, msg.sequence)).len() >= pbft_quorum(
                old(self).total_nodes as nat,
            )),
            r == prepare_quorum(
                old(self).state@,
                (msg.view, msg.sequence),
                msg.block_hash@,
                msg.node_id,
                old(self).total_nodes as nat,
            ),
            forall|k: (u64, u64)| #[trigger]
                voters(old(self).state@.prepares, k).subset_of(
                    voters(final(self).state@.prepares, k),
                ),
            old(self).state@.committed == final(self).state@.committed,
    {
        let ghost s = self.state@;
        proof {
            lemma_votes_only_grow(s.prepares, (msg.view, msg.sequence), msg.block_hash@, msg.node_id);
            lemma_with_vote_voters(s.prepares, (msg.view, msg.sequence), msg.block_hash@, msg.node_id);
        }
        let count = record_vote(
            &mut self.state.prepares,
            msg.view,
            msg.sequence,
            &msg.block_hash,
            msg.node_id,
        );
        let q = self.state.quorum_size(self.total_nodes);
        proof {
            assert(self.state@ =~= after_prepare(
                s,
                (msg.view, msg.sequence),
                msg.block_hash@,
                msg.node_id,
            ));
            assert(self.state@.commits == s.commits && self.state@.committed == s.committed);
            assert(committed_by_quorum(self.state@, self.total_nodes as nat));
        }
        count >= q
    }

    /// Records a commit; once its `(view, sequence)` holds a quorum of commits
    /// the sequence joins the commit set. Returns whether that quorum is held.
    pub fn handle_commit(&mut self, msg: &PBFTMessage) -> (r: bool)
        requires
            old(self).wf(),
        ensures
            final(self).wf(),
            final(self).total_nodes == old(self).total_nodes,
            final(self).node_addresses == old(self).node_addresses,
            final(self).state@ == after_commit(
                old(self).state@,
                (msg.view, msg.sequence),
                msg.block_hash@,
                msg.node_id,
                old(self).total_nodes as nat,
            ),
            voters(final(self).state@.commits, (msg.view, msg.sequence)) == voters(
                old(self).state@.commits,
                (msg.view, msg.sequence),
            ).insert(msg.node_id),
            r == (voters(final(self).state@.commits, (msg.view, msg.sequence)).len() >= pbft_quorum(
                old(self).total_nodes as nat,
            )),
            r == commit_quorum(
                old(self).state@,
                (msg.view, msg.sequence),
                msg.block_hash@,
                msg.node_id,
                old(self).total_nodes as nat,
            ),
            r ==> final(self).state@.committed.contains(msg.sequence),
            forall|k: (u64, u64)| #[trigger]
                voters(old(self).state@.commits, k).subset_of(
                    voters(final(self).state@.commits, k),
                ),
            old(self).state@.committed.subset_of(final(self).state@.committed),
    {
        let ghost s = self.state@;
        proof {
            lemma_votes_only_grow(s.commits, (msg.view, msg.sequence), msg.block_hash@, msg.node_id);
            lemma_with_vote_voters(s.commits, (msg.view, msg.sequence), msg.block_hash@, msg.node_id);
        }
        let count = record_vote(
            &mut self.state.commits,
            msg.view,
            msg.sequence,
            &msg.block_hash,
            msg.node_id,
        );
        let q = self.state.quorum_size(self.total_nodes);
        let has_quorum = count >= q;
        if has_quorum {
            insert_index(&mut self.state.committed_blocks, msg.sequence);
        }
        proof {
            assert(self.state@ =~= after_commit(
                s,
                (msg.view, msg.sequence),
                msg.block_hash@,
                msg.node_id,
                self.total_nodes as nat,
            ));
            lemma_commit_keeps_quorum_backing(
                s,
                (msg.view, msg.sequence),
                msg.block_hash@,
                msg.node_id,
                self.total_nodes as nat,
            );
        }
        has_quorum
    }

    /// Records a vote received from a peer in the phase its type names.
    /// Returns whether that phase now holds its quorum.
    pub fn handle_vote(&mut self, msg: &PBFTMessage) -> (r: bool)
        requires
            old(self).wf(),
        ensures
            final(self).wf(),
            final(self).total_nodes == old(self).total_nodes,
            msg.msg_type == MessageType::PrePrepare ==> final(self).state@ == after_pre_prepare(
                old(self).state@,
                (msg.view, msg.sequence),
                msg.block_hash@,
                msg.node_id,
            ),
            msg.msg_type == MessageType::Prepare ==> final(self).state@ == after_prepare(
                old(self).state@,
                (msg.view, msg.sequence),
                msg.block_hash@,
                msg.node_id,
            ),
            msg.msg_type == MessageType::Commit ==> final(self).state@ == after_commit(
                old(self).state@,
                (msg.view, msg.sequence),
                msg.block_hash@,
                msg.node_id,
                old(self).total_nodes as nat,
            ),
            msg.msg_type == MessageType::Prepare ==> r == prepare_quorum(
                old(self).state@,
                (msg.view, msg.sequence),
                msg.block_hash@,
                msg.node_id,
                old(self).total_nodes as nat,
            ),
            msg.msg_type == MessageType::Commit ==> r == commit_quorum(
                old(self).state@,
                (msg.view, msg.sequence),
                msg.block_hash@,
                msg.node_id,
                old(self).total_nodes as nat,
            ),
            msg.msg_type == MessageType::PrePrepare ==> r == (!equivocates(
                old(self).state@,
                (msg.view, msg.sequence),
                msg.block_hash@,
            ) && voters(final(self).state@.pre_prepares, (msg.view, msg.sequence)).len()
                >= pbft_quorum(old(self).total_nodes as nat)),
            old(self).state@.committed.subset_of(final(self).state@.committed),
    {
        match msg.msg_type {
            MessageType::PrePrepare => self.handle_pre_prepare(msg),
            MessageType::Prepare => self.handle_prepare(msg),
            MessageType::Commit => self.handle_commit(msg),
        }
    }

    /// Whether `sequence` is in the commit set.
    pub fn is_committed(&self, sequence: u64) -> (r: bool)
        ensures
            r == self.state@.committed.contains(sequence),
    {
        contains_index(&self.state.committed_blocks, sequence)
    }

    pub fn node_id(&self) -> (r: usize)
        ensures
            r == self.state.node_id,
    {
        self.state.node_id
    }

    fn create_message(
        &self,
        msg_type: MessageType,
        block_hash: &str,
        block_data_json: Option<String>,
        sequence: u64,
    ) -> (r: PBFTMessage)
        ensures
            r.msg_type == msg_type,
            r.view == self.state.view,
            r.sequence == sequence,
            r.block_hash@ == block_hash@,
            r.block_data_json == block_data_json,
            r.node_id == self.state.node_id,
    {
        PBFTMessage {
            msg_type,
            view: self.state.view,
            sequence,
            block_hash: block_hash.to_owned(),
            block_data_json,
            node_id: self.state.node_id,
            timestamp: unix_now(),
        }
    }

    /// A pre-prepare from this replica in its current view, carrying the block.
    pub fn create_pre_prepare(&self, block_hash: &str, block_data_json: &str, sequence: u64) -> (r:
        PBFTMessage)
        ensures
            r.msg_type == MessageType::PrePrepare,
            r.view == self.state.view,
            r.sequence == sequence,
            r.block_hash@ == block_hash@,
            r.block_data_json matches Some(j) && j@ == block_data_json@,
            r.node_id == self.state.node_id,
    {
        self.create_message(
            MessageType::PrePrepare,
            block_hash,
            Some(block_data_json.to_owned()),
            sequence,
        )
    }

    /// A prepare from this replica in its current view.
    pub fn create_prepare(&self, block_hash: &str, sequence: u64) -> (r: PBFTMessage)
        ensures
            r.msg_type == MessageType::Prepare,
            r.view == self.state.view,
            r.sequence == sequence,
            r.block_hash@ == block_hash@,
            r.block_data_json is None,
            r.node_id == self.state.node_id,
    {
        self.create_message(MessageType::Prepare, block_hash, None, sequence)
    }

    /// A commit from this replica in its current view.
    pub fn create_commit(&self, block_hash: &str, sequence: u64) -> (r: PBFTMessage)
        ensures
            r.msg_type == MessageType::Commit,
            r.view == self.state.view,
            r.sequence == sequence,
            r.block_hash@ == block_hash@,
            r.block_data_json is None,
            r.node_id == self.state.node_id,
    {
        self.create_message(MessageType::Commit, block_hash, None, sequence)
    }

    /// Whether this replica is the primary for `sequence`.
    pub fn is_primary(&self, sequence: u64) -> (r: bool)
        requires
            self.total_nodes >= 1,
        ensures
            r == self.leads(sequence),
    {
        sequence % (self.total_nodes as u64) == self.state.node_id as u64
    }
}

/// The replica state after the three phases for a block with `key` and
/// `block_hash`, run back to back by replica `me` among `n`: the
/// pre-prepare when `leads`, the prepare, and the commit only once prepared.
pub open spec fn after_propose(
    s: NodeStateView,
    key: (u64, u64),
    block_hash: Seq<char>,
    me: usize,
    leads: bool,
    n: nat,
) -> NodeStateView {
    let s1 = if leads {
        after_pre_prepare(s, key, block_hash, me)
    } else {
        s
    };
    let s2 = after_prepare(s1, key, block_hash, me);
    if prepare_quorum(s1, key, block_hash, me, n) {
        after_commit(s2, key, block_hash, me, n)
    } else {
        s2
    }
}

/// Whether the three phases run back to back end with the block committed:
/// prepared, then a commit quorum.
pub open spec fn propose_commits(
    s: NodeStateView,
    key: (u64, u64),
    block_hash: Seq<char>,
    me: usize,
    leads: bool,
    n: nat,
) -> bool {
    let s1 = if leads {
        after_pre_prepare(s, key, block_hash, me)
    } else {
        s
    };
    let s2 = after_prepare(s1, key, block_hash, me);
    prepare_quorum(s1, key, block_hash, me, n) && commit_quorum(s2, key, block_hash, me, n)
}

/// The PBFT engine of one replica. The transport and the pauses between the
/// phases are the caller's: each phase returns the message to broadcast.
pub struct PBFTConsensus {
    pub pbft: PBFTManager,
    pub node_addresses: Vec<String>,
    pub port: u16,
}

impl PBFTConsensus {
    pub open spec fn wf(&self) -> bool {
        self.pbft.wf()
    }

    pub fn new(pbft: PBFTManager, node_addresses: Vec<String>, port: u16) -> (r: PBFTConsensus)
        requires
            pbft.wf(),
        ensures
            r.wf(),
            r.pbft == pbft,
            r.node_addresses@ == node_addresses@,
            r.port == port,
    {
        PBFTConsensus { pbft, node_addresses, port }
    }

    /// Phase one: the primary for `block.index` records and returns its
    /// pre-prepare; any other replica does nothing.
    pub fn pre_prepare_phase(&mut self, block: &Block, block_json: &str) -> (r: Option<PBFTMessage>)
        requires
            old(self).wf(),
        ensures
            final(self).wf(),
            final(self).pbft.total_nodes == old(self).pbft.total_nodes,
            old(self).pbft.leads(block.index) ==> (r matches Some(m) && m.msg_type
                == MessageType::PrePrepare && m.view == old(self).pbft.state.view && m.sequence
                == block.index && m.block_hash@ == block.hash@ && m.node_id
                == old(self).pbft.state.node_id && final(self).pbft.state@ == after_pre_prepare(
                old(self).pbft.state@,
                (m.view, m.sequence),
                m.block_hash@,
                m.node_id,
            )),
            !old(self).pbft.leads(block.index) ==> r is None && final(self).pbft.state@ == old(
                self,
            ).pbft.state@,
            final(self).pbft.state@.committed == old(self).pbft.state@.committed,
    {
        if self.pbft.is_primary(block.index) {
            let msg = self.pbft.create_pre_prepare(block.hash.as_str(), block_json, block.index);
            self.pbft.handle_pre_prepare(&msg);
            Some(msg)
        } else {
            None
        }
    }

    /// Phase two: records and returns this replica's prepare for the block,
    /// with whether the replica is now prepared.
    pub fn prepare_phase(&mut self, block: &Block) -> (r: (PBFTMessage, bool))
        requires
            old(self).wf(),
        ensures
            final(self).wf(),
            final(self).pbft.total_nodes == old(self).pbft.total_nodes,
            r.0.msg_type == MessageType::Prepare,
            r.0.view == old(self).pbft.state.view,
            r.0.sequence == block.index,
            r.0.block_hash@ == block.hash@,
            r.0.node_id == old(self).pbft.state.node_id,
            final(self).pbft.state@ == after_prepare(
                old(self).pbft.state@,
                (r.0.view, block.index),
                block.hash@,
                r.0.node_id,
            ),
            r.1 == prepare_quorum(
                old(self).pbft.state@,
                (r.0.view, block.index),
                block.hash@,
                r.0.node_id,
                old(self).pbft.total_nodes as nat,
            ),
            final(self).pbft.state@.committed == old(self).pbft.state@.committed,
    {
        let msg = self.pbft.create_prepare(block.hash.as_str(), block.index);
        let prepared = self.pbft.handle_prepare(&msg);
        (msg, prepared)
    }

    /// Phase three: records and returns this replica's commit for the block;
    /// the outcome is `Committed` exactly when the commit quorum is held.
    pub fn commit_phase(&mut self, block: &Block) -> (r: (PBFTMessage, ConsensusResult))
        requires
            old(self).wf(),
        ensures
            final(self).wf(),
            final(self).pbft.total_nodes == old(self).pbft.total_nodes,
            r.0.msg_type == MessageType::Commit,
            r.0.view == old(self).pbft.state.view,
            r.0.sequence == block.index,
            r.0.block_hash@ == block.hash@,
            r.0.node_id == old(self).pbft.state.node_id,
            final(self).pbft.state@ == after_commit(
                old(self).pbft.state@,
                (r.0.view, block.index),
                block.hash@,
                r.0.node_id,
                old(self).pbft.total_nodes as nat,
            ),
            commit_quorum(
                old(self).pbft.state@,
                (r.0.view, block.index),
                block.hash@,
                r.0.node_id,
                old(self).pbft.total_nodes as nat,
            ) ==> (r.1 matches ConsensusResult::Committed(b) && b@ == block@),
            !commit_quorum(
                old(self).pbft.state@,
                (r.0.view, block.index),
                block.hash@,
                r.0.node_id,
                old(self).pbft.total_nodes as nat,
            ) ==> r.1 is Pending,
            old(self).pbft.state@.committed.subset_of(final(self).pbft.state@.committed),
    {
        let msg = self.pbft.create_commit(block.hash.as_str(), block.index);
        let quorum = self.pbft.handle_commit(&msg);
        if quorum {
            (msg, ConsensusResult::Committed(block.duplicate()))
        } else {
            (msg, ConsensusResult::Pending)
        }
    }

    /// The three phases back to back, with no pause for peers: the votes
    /// that peers sent earlier count. `Pending` when this replica is not
    /// prepared or the commit quorum is not held.
    pub fn propose(&mut self, block: &Block, block_json: &str) -> (r: ConsensusResult)
        requires
            old(self).wf(),
        ensures
            final(self).wf(),
            final(self).pbft.total_nodes == old(self).pbft.total_nodes,
            final(self).pbft.state@ == after_propose(
                old(self).pbft.state@,
                (old(self).pbft.state.view, block.index),
                block.hash@,
                old(self).pbft.state.node_id,
                old(self).pbft.leads(block.index),
                old(self).pbft.total_nodes as nat,
            ),
            propose_commits(
                old(self).pbft.state@,
                (old(self).pbft.state.view, block.index),
                block.hash@,
                old(self).pbft.state.node_id,
                old(self).pbft.leads(block.index),
                old(self).pbft.total_nodes as nat,
            ) ==> (r matches ConsensusResult::Committed(b) && b@ == block@
                && final(self).pbft.state@.committed.contains(block.index)),
            !propose_commits(
                old(self).pbft.state@,
                (old(self).pbft.state.view, block.index),
                block.hash@,
                old(self).pbft.state.node_id,
                old(self).pbft.leads(block.index),
                old(self).pbft.total_nodes as nat,
            ) ==> r is Pending,
            old(self).pbft.state@.committed.subset_of(final(self).pbft.state@.committed),
    {
        self.pre_prepare_phase(block, block_json);
        let (_, prepared) = self.prepare_phase(block);
        if !prepared {
            return ConsensusResult::Pending;
        }
        let (_, outcome) = self.commit_phase(block);
        outcome
    }

    /// Messages of the generic transport carry no PBFT vote: nothing changes.
    pub fn handle_message(&mut self, message: &ConsensusMessage) -> (r: ConsensusResult)
        ensures
            r is Pending,
            *final(self) == *old(self),
    {
        ConsensusResult::Pending
    }

    pub fn is_committed(&self, block_index: u64) -> (r: bool)
        ensures
            r == self.pbft.state@.committed.contains(block_index),
    {
        self.pbft.is_committed(block_index)
    }

    pub fn name(&self) -> (r: &'static str)
        ensures
            r@ == "PBFT"@,
    {
        proof {
            reveal_strlit("PBFT");
        }
        "PBFT"
    }

    pub fn requirements(&self) -> (r: ConsensusRequirements)
        ensures
            r.requires_majority,
            r.min_nodes == Some(4usize),
    {
        ConsensusRequirements {
            requires_majority: true,
            min_nodes: Some(4),
            description: "Practical Byzantine Fault Tolerance - requires 2f+1 out of 3f+1 nodes".to_owned(),
        }
    }
}

} // verus!
