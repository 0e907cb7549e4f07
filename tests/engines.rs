use std::time::{Duration, Instant};

use market_ledger::block::{Block, MarketData};
use market_ledger::consensus::{ConsensusMessage, ConsensusResult};
use market_ledger::eventual::EventualConsensus;
use market_ledger::gossip::{forward_peers, GossipConsensus};
use market_ledger::paxos::{default_quorums, FlexiblePaxos, QuorumConfigError};
use market_ledger::quorumless::QuorumlessConsensus;
use market_ledger::strategy::{
    outcome, ConsensusAlgorithmAdapter, ConsensusEngine, NoConsensusStrategy, ProposeContext,
    SimpleMajorityStrategy, SimplifiedPoWStrategy,
};

fn create_test_block(index: u64) -> Block {
    let now = chrono::Utc::now().timestamp();
    let mut block = Block {
        index,
        timestamp: now,
        data: vec![MarketData {
            asset: "BTC".to_string(),
            price_cents: 5_000_000 + index * 100,
            source: "Test".to_string(),
            timestamp: now,
        }],
        previous_hash: if index == 1 {
            "0000_genesis".to_string()
        } else {
            format!("hash_{}", index - 1)
        },
        hash: String::new(),
        nonce: 0,
    };
    block.calculate_hash_with_nonce();
    block
}

fn message(block_index: u64, node_id: usize) -> ConsensusMessage {
    ConsensusMessage {
        algorithm: "test".to_string(),
        block_index,
        block_hash: "h".to_string(),
        node_id,
        data: Vec::new(),
    }
}

fn context(waited_ms: u64) -> ProposeContext {
    ProposeContext { block_json: "{}".to_string(), peers: vec![1, 2], waited_ms }
}

#[test]
fn test_gossip_consensus() {
    let mut consensus = GossipConsensus::new(0, 1, 2);
    let block = create_test_block(1);

    let result = consensus.propose(&block, &vec![1, 2]);

    match result {
        ConsensusResult::Committed(_) => {
            assert!(consensus.is_committed(1));
        }
        _ => panic!("Expected committed result"),
    }
}

#[test]
fn test_eventual_consensus() {
    let mut consensus = EventualConsensus::new(0, 50, 1);
    let block = create_test_block(1);

    let start = Instant::now();
    while start.elapsed() < Duration::from_millis(consensus.delay_ms()) {}
    let result = consensus.propose(&block, start.elapsed().as_millis() as u64);
    let elapsed = start.elapsed();

    match result {
        ConsensusResult::Committed(_) => {
            assert!(elapsed >= Duration::from_millis(50));
            assert!(consensus.is_committed(1));
        }
        _ => panic!("Expected committed result"),
    }
}

#[test]
fn test_quorumless_consensus() {
    let mut consensus = QuorumlessConsensus::new(0, 3000);

    consensus.set_node_weight(0, 2000);
    consensus.set_node_weight(1, 2000);

    let block = create_test_block(1);
    let result = consensus.propose(&block);

    match result {
        ConsensusResult::Pending => {
            // Expected - need more votes
        }
        _ => panic!("Expected pending result, got {:?}", result),
    }
}

#[test]
fn test_consensus_requirements() {
    let gossip = GossipConsensus::new(0, 3, 2);
    let req = gossip.requirements();

    assert!(!req.requires_majority);
    assert_eq!(req.min_nodes, None);

    let eventual = EventualConsensus::new(0, 1000, 2);
    let req = eventual.requirements();

    assert!(!req.requires_majority);
    assert_eq!(req.min_nodes, None);
}

#[test]
fn test_consensus_names() {
    let gossip = GossipConsensus::new(0, 3, 2);
    assert_eq!(gossip.name(), "Gossip Protocol");

    let eventual = EventualConsensus::new(0, 1000, 2);
    assert_eq!(eventual.name(), "Eventual Consistency");

    let quorumless = QuorumlessConsensus::new(0, 5000);
    assert_eq!(quorumless.name(), "Quorum-less (Weighted)");
}

#[test]
fn eventual_before_delay_is_pending() {
    let mut consensus = EventualConsensus::new(0, 50, 1);
    let block = create_test_block(4);
    assert!(matches!(consensus.propose(&block, 49), ConsensusResult::Pending));
    assert!(!consensus.is_committed(4));
}

#[test]
fn quorumless_single_voter_below_threshold() {
    let mut consensus = QuorumlessConsensus::new(0, 3000);
    let block = create_test_block(1);
    assert!(matches!(consensus.propose(&block), ConsensusResult::Pending));
    assert_eq!(consensus.calculate_total_weight(1), 1000);
    assert!(!consensus.is_committed(1));
}

#[test]
fn quorumless_commits_at_threshold() {
    let mut consensus = QuorumlessConsensus::new(0, 3000);
    let block = create_test_block(2);
    consensus.handle_message(&message(2, 1));
    assert!(!consensus.is_committed(2));
    consensus.handle_message(&message(2, 1));
    assert_eq!(consensus.calculate_total_weight(2), 1000);
    consensus.handle_message(&message(2, 4));
    match consensus.propose(&block) {
        ConsensusResult::Committed(b) => assert_eq!(b.index, 2),
        other => panic!("expected a commit, got {:?}", other),
    }
    assert_eq!(consensus.calculate_total_weight(2), 3000);
    assert!(consensus.is_committed(2));
}

#[test]
fn quorumless_unknown_node_weighs_nothing() {
    let mut consensus = QuorumlessConsensus::new(0, 1000);
    consensus.handle_message(&message(3, 42));
    assert_eq!(consensus.calculate_total_weight(3), 0);
    assert!(!consensus.is_committed(3));
    consensus.set_node_weight(42, 1500);
    assert_eq!(consensus.node_weight(42), 1500);
}

#[test]
fn gossip_commits_once_enough_replicas_saw_the_block() {
    let mut consensus = GossipConsensus::new(0, 3, 2);
    consensus.handle_message(&message(7, 1));
    consensus.handle_message(&message(7, 1));
    assert_eq!(consensus.seen_count(7), 1);
    consensus.handle_message(&message(7, 2));
    assert!(!consensus.is_committed(7));
    consensus.handle_message(&message(7, 3));
    assert_eq!(consensus.seen_count(7), 3);
    assert!(consensus.is_committed(7));
}

#[test]
fn gossip_without_enough_seers_is_pending() {
    let mut consensus = GossipConsensus::new(0, 4, 2);
    let block = create_test_block(1);
    assert!(matches!(consensus.propose(&block, &vec![1, 1]), ConsensusResult::Pending));
    assert_eq!(consensus.seen_count(1), 2);
    assert!(!consensus.is_committed(1));
}

#[test]
fn flexible_paxos_rejects_non_intersecting_quorums() {
    assert!(matches!(
        FlexiblePaxos::new(0, 5, 2, 3),
        Err(QuorumConfigError::QuorumsDoNotIntersect)
    ));
    assert!(matches!(
        FlexiblePaxos::new(0, 5, 2, 4),
        Err(QuorumConfigError::PhaseOneBelowMajority)
    ));
    assert!(matches!(
        FlexiblePaxos::new(0, 4, 2, 3),
        Err(QuorumConfigError::PhaseOneBelowMajority)
    ));
    assert!(FlexiblePaxos::new(0, 4, 3, 2).is_ok());
}

#[test]
fn flexible_paxos_happy_path_and_same_value_on_repropose() {
    let mut paxos = FlexiblePaxos::new(0, 5, 3, 3).ok().unwrap();
    let block = create_test_block(1);
    let first = match paxos.propose(&block) {
        ConsensusResult::Committed(b) => b,
        other => panic!("expected a commit, got {:?}", other),
    };
    assert_eq!(first.hash, block.hash);
    assert!(paxos.is_committed(1));

    let mut rival = create_test_block(1);
    rival.nonce = 7;
    rival.calculate_hash_with_nonce();
    match paxos.propose(&rival) {
        ConsensusResult::Committed(b) => assert_eq!(b.hash, first.hash),
        other => panic!("expected a commit, got {:?}", other),
    }
    assert_eq!(paxos.name(), "Flexible Paxos");
    assert_eq!(paxos.requirements().min_nodes, Some(3));
}

#[test]
fn flexible_paxos_phase_two_quorum_too_large_is_pending() {
    let mut paxos = FlexiblePaxos::new(1, 3, 2, 4).ok().unwrap();
    let block = create_test_block(1);
    assert!(matches!(paxos.propose(&block), ConsensusResult::Pending));
    assert!(!paxos.is_committed(1));
}

#[test]
fn adapter_maps_outcomes_and_keeps_commitments() {
    let mut adapter = ConsensusAlgorithmAdapter::new(ConsensusEngine::Eventual(EventualConsensus::new(0, 10, 1)));
    let block = create_test_block(3);
    assert!(adapter.execute(&block, &context(0)).is_none());
    assert!(!adapter.is_committed(3));
    let got = adapter.execute(&block, &context(10)).unwrap();
    assert_eq!(got.hash, block.hash);
    assert!(adapter.is_committed(3));
    adapter.handle_message(&message(3, 2));
    assert!(adapter.is_committed(3));
    assert_eq!(adapter.name(), "Eventual Consistency");

    let mut gossip = ConsensusAlgorithmAdapter::new(ConsensusEngine::Gossip(GossipConsensus::new(0, 1, 2)));
    assert!(gossip.execute(&block, &context(0)).is_some());
    assert!(gossip.is_committed(3));

    assert!(outcome(ConsensusResult::Rejected("bad".to_string())).is_none());
    assert!(outcome(ConsensusResult::Pending).is_none());
}

#[test]
fn baseline_strategies() {
    let block = create_test_block(1);

    let mut none = NoConsensusStrategy::new();
    assert!(none.execute(&block).is_some());
    assert!(none.is_committed(1));

    let mut majority = SimpleMajorityStrategy::new(0, 4);
    assert!(majority.execute(&block).is_some());
    assert!(majority.is_committed(1));
    assert_eq!(majority.requirements().min_nodes, Some(3));

    let mut pow = SimplifiedPoWStrategy::new(1);
    let mined = pow.execute(&block).unwrap();
    assert!(mined.hash.starts_with('0'));
    assert_eq!(mined.hash, mined.calculate_hash());
    assert!(pow.is_committed(1));
}

#[test]
fn adapter_hands_messages_to_the_engine() {
    let mut gossip = ConsensusAlgorithmAdapter::new(ConsensusEngine::Gossip(GossipConsensus::new(0, 2, 2)));
    assert!(matches!(gossip.handle_message(&message(5, 1)), ConsensusResult::Pending));
    assert!(!gossip.is_committed(5));
    gossip.handle_message(&message(5, 2));
    assert!(gossip.is_committed(5));
    assert_eq!(gossip.name(), "Gossip Protocol");
    assert_eq!(gossip.requirements().min_nodes, None);

    let mut weighted = ConsensusAlgorithmAdapter::new(ConsensusEngine::Quorumless(QuorumlessConsensus::new(0, 2000)));
    weighted.handle_message(&message(6, 1));
    assert!(!weighted.is_committed(6));
    weighted.handle_message(&message(6, 2));
    assert!(weighted.is_committed(6));

    let paxos = FlexiblePaxos::new(0, 5, 3, 3).ok().unwrap();
    let mut adapter = ConsensusAlgorithmAdapter::new(ConsensusEngine::FlexiblePaxos(paxos));
    assert!(matches!(adapter.handle_message(&message(1, 1)), ConsensusResult::Pending));
    assert!(!adapter.is_committed(1));
    assert_eq!(adapter.requirements().min_nodes, Some(3));
    assert!(adapter.requirements().requires_majority);
}

#[test]
fn gossip_records_first_sighting_once() {
    let mut consensus = GossipConsensus::new(0, 1, 1);
    consensus.handle_message(&message(9, 1));
    consensus.handle_message(&message(9, 2));
    assert_eq!(consensus.first_seen.len(), 1);
    assert_eq!(consensus.first_seen[0].0, 9);
    let block = create_test_block(10);
    consensus.propose(&block, &vec![]);
    assert_eq!(consensus.first_seen.len(), 2);
}

#[test]
fn forward_peers_and_default_quorums() {
    assert_eq!(forward_peers(2, 2, 2, 4), vec![3, 0, 1, 2]);
    assert!(forward_peers(0, 0, 3, 4).is_empty());
    assert_eq!(default_quorums(4), (3, 2));
    assert_eq!(default_quorums(5), (4, 2));
    let (q1, q2) = default_quorums(7);
    assert!(FlexiblePaxos::new(1, 7, q1, q2).is_ok());
}

#[test]
fn paxos_from_other_replica_ids_commits() {
    let mut paxos = FlexiblePaxos::new(3, 4, 3, 2).ok().unwrap();
    let block = create_test_block(2);
    assert!(matches!(paxos.propose(&block), ConsensusResult::Committed(_)));
    assert!(paxos.is_committed(2));
}

#[test]
fn mining_without_a_match_returns_nothing() {
    let block = create_test_block(1);
    let mut pow = SimplifiedPoWStrategy::new(65);
    let mut start = block.clone();
    start.nonce = 100_000;
    assert!(pow.execute(&start).is_none());
    assert!(!pow.is_committed(1));
}
