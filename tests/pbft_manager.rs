use market_ledger::block::{Block, MarketData};
use market_ledger::consensus::ConsensusResult;
use market_ledger::pbft::{MessageType, NodeState, PBFTConsensus, PBFTManager, PBFTMessage};
use market_ledger::store::BlockStore;

fn addresses(n: usize) -> Vec<String> {
    (0..n).map(|i| format!("127.0.0.1:{}", 8000 + i)).collect()
}

fn vote(msg_type: MessageType, sequence: u64, node_id: usize) -> PBFTMessage {
    PBFTMessage {
        msg_type,
        view: 0,
        sequence,
        block_hash: "test_hash".to_string(),
        block_data_json: None,
        node_id,
        timestamp: 1234567890,
    }
}

fn happy_path_block() -> Block {
    let mut block = Block {
        index: 1,
        timestamp: 1234567890,
        data: vec![MarketData {
            asset: "BTC".to_string(),
            price_cents: 5_000_000,
            source: "Test".to_string(),
            timestamp: 1234567890,
        }],
        previous_hash: "0000_genesis".to_string(),
        hash: String::new(),
        nonce: 0,
    };
    block.calculate_hash_with_nonce();
    block
}

#[test]
fn test_quorum_size_calculation() {
    let state = NodeState::new(0);

    assert_eq!(state.quorum_size(4), 3);
    assert_eq!(state.quorum_size(7), 5);
    assert_eq!(state.quorum_size(10), 7);
}

#[test]
fn test_has_quorum() {
    let state = NodeState::new(0);

    assert!(state.has_quorum(&[0, 1, 2], 4));
    assert!(!state.has_quorum(&[0, 1], 4));
    assert!(state.has_quorum(&[0, 1, 2, 3], 4));
}

#[test]
fn test_pbft_manager_creation() {
    let addresses = vec!["127.0.0.1:8000".to_string(), "127.0.0.1:8001".to_string()];
    let manager = PBFTManager::new(0, 2, addresses);

    assert_eq!(manager.node_id(), 0);
    assert_eq!(manager.total_nodes, 2);
}

#[test]
fn test_is_primary() {
    let addresses = vec![
        "127.0.0.1:8000".to_string(),
        "127.0.0.1:8001".to_string(),
        "127.0.0.1:8002".to_string(),
    ];

    let manager0 = PBFTManager::new(0, 3, addresses.clone());
    let manager1 = PBFTManager::new(1, 3, addresses.clone());
    let manager2 = PBFTManager::new(2, 3, addresses);

    assert!(manager0.is_primary(0));
    assert!(manager1.is_primary(1));
    assert!(manager2.is_primary(2));
    assert!(manager0.is_primary(3));
}

#[test]
fn test_message_handling() {
    let mut manager = PBFTManager::new(0, 4, addresses(4));

    let msg = vote(MessageType::Prepare, 1, 1);

    let result = manager.handle_prepare(&msg);
    assert!(!result);
}

#[test]
fn test_quorum_reached() {
    let mut manager = PBFTManager::new(0, 4, addresses(4));

    let msg1 = vote(MessageType::Commit, 1, 0);
    let msg2 = vote(MessageType::Commit, 1, 1);
    let msg3 = vote(MessageType::Commit, 1, 2);

    manager.handle_commit(&msg1);
    manager.handle_commit(&msg2);
    let result = manager.handle_commit(&msg3);

    assert!(result);
    assert!(manager.is_committed(1));
}

#[test]
fn pbft_quorum_boundary_sizes() {
    let state = NodeState::new(3);
    assert_eq!(state.quorum_size(1), 1);
    assert_eq!(state.quorum_size(3), 1);
    assert_eq!(state.quorum_size(5), 3);
}

#[test]
fn duplicate_commit_keeps_quorum_and_size() {
    let mut manager = PBFTManager::new(0, 4, addresses(4));
    for sender in 0..3 {
        manager.handle_commit(&vote(MessageType::Commit, 5, sender));
    }
    let before = manager.state.commits[0].senders.clone();
    assert_eq!(before.len(), 3);
    assert!(manager.handle_commit(&vote(MessageType::Commit, 5, 1)));
    assert_eq!(manager.state.commits[0].senders, before);
    assert!(manager.is_committed(5));
}

#[test]
fn handling_a_prepare_twice_changes_nothing_more() {
    let mut manager = PBFTManager::new(0, 4, addresses(4));
    let msg = vote(MessageType::Prepare, 2, 3);
    manager.handle_prepare(&msg);
    let once: Vec<usize> = manager.state.prepares[0].senders.clone();
    manager.handle_prepare(&msg);
    assert_eq!(manager.state.prepares.len(), 1);
    assert_eq!(manager.state.prepares[0].senders, once);
}

#[test]
fn equivocating_pre_prepare_is_ignored() {
    let mut manager = PBFTManager::new(0, 4, addresses(4));
    let first = vote(MessageType::PrePrepare, 1, 1);
    let mut other = vote(MessageType::PrePrepare, 1, 2);
    other.block_hash = "other_hash".to_string();
    manager.handle_pre_prepare(&first);
    assert!(!manager.handle_pre_prepare(&other));
    assert_eq!(manager.state.pre_prepares[0].senders, vec![1]);
    assert_eq!(manager.state.pre_prepares[0].block_hash, "test_hash");
}

#[test]
fn commit_votes_only_grow() {
    let mut manager = PBFTManager::new(0, 7, addresses(7));
    let mut seen = 0;
    for sender in [4, 2, 4, 6, 2, 0] {
        manager.handle_commit(&vote(MessageType::Commit, 9, sender));
        let now = manager.state.commits[0].senders.len();
        assert!(now >= seen);
        seen = now;
    }
    assert_eq!(seen, 4);
    assert!(!manager.is_committed(9));
    manager.handle_commit(&vote(MessageType::Commit, 9, 5));
    assert!(manager.is_committed(9));
}

#[test]
fn pbft_happy_path_four_replicas() {
    let block = happy_path_block();
    let json = "{\"index\":1}";
    let mut replicas: Vec<PBFTConsensus> = (0..4)
        .map(|id| PBFTConsensus::new(PBFTManager::new(id, 4, addresses(4)), addresses(4), 8000 + id as u16))
        .collect();

    // Pre-prepare from the primary of sequence 1.
    let mut pre_prepares = Vec::new();
    for r in replicas.iter_mut() {
        if let Some(m) = r.pre_prepare_phase(&block, json) {
            pre_prepares.push(m);
        }
    }
    assert_eq!(pre_prepares.len(), 1);
    assert_eq!(pre_prepares[0].node_id, 1);
    for r in replicas.iter_mut() {
        if r.pbft.node_id() != 1 {
            r.pbft.handle_pre_prepare(&pre_prepares[0]);
        }
    }

    // Every replica prepares; prepares are delivered everywhere.
    let mut prepares = Vec::new();
    for r in replicas.iter_mut() {
        let (m, _) = r.prepare_phase(&block);
        prepares.push(m);
    }
    for r in replicas.iter_mut() {
        for m in &prepares {
            if m.node_id != r.pbft.node_id() {
                r.pbft.handle_prepare(m);
            }
        }
    }

    // Commits: the first three are delivered before the last replica commits.
    let mut commits = Vec::new();
    for r in replicas.iter_mut().take(3) {
        let (m, _) = r.commit_phase(&block);
        commits.push(m);
    }
    let last = &mut replicas[3];
    for m in &commits {
        last.pbft.handle_commit(m);
    }
    let (m, outcome) = last.commit_phase(&block);
    commits.push(m);
    match outcome {
        ConsensusResult::Committed(b) => assert_eq!(b.hash, block.hash),
        other => panic!("expected a commit, got {:?}", other),
    }
    for r in replicas.iter_mut() {
        for m in &commits {
            if m.node_id != r.pbft.node_id() {
                r.pbft.handle_commit(m);
            }
        }
    }
    for r in &replicas {
        assert!(r.is_committed(1));
    }

    let mut store = BlockStore::new();
    let before = store.get_block_count();
    store.save_block(&block).unwrap();
    assert_eq!(store.get_block_count(), before + 1);
    assert!(store.verify_chain());
}

#[test]
fn lone_replica_stays_pending() {
    let block = happy_path_block();
    let mut replica = PBFTConsensus::new(PBFTManager::new(1, 4, addresses(4)), addresses(4), 8001);
    match replica.propose(&block, "{}") {
        ConsensusResult::Pending => {}
        other => panic!("expected pending, got {:?}", other),
    }
    assert!(!replica.is_committed(1));
    assert_eq!(replica.name(), "PBFT");
    assert_eq!(replica.requirements().min_nodes, Some(4));
}

#[test]
fn prepares_and_commits_count_every_sender() {
    let mut manager = PBFTManager::new(0, 4, addresses(4));
    for sender in 0..2 {
        manager.handle_commit(&vote(MessageType::Commit, 3, sender));
    }
    let mut other = vote(MessageType::Commit, 3, 2);
    other.block_hash = "other_hash".to_string();
    assert!(manager.handle_commit(&other));
    assert!(manager.is_committed(3));
    assert_eq!(manager.state.commits[0].senders, vec![0, 1, 2]);
    let mut prepare = vote(MessageType::Prepare, 3, 1);
    assert!(!manager.handle_vote(&prepare));
    prepare.block_hash = "other_hash".to_string();
    prepare.node_id = 2;
    assert!(!manager.handle_vote(&prepare));
    assert_eq!(manager.state.prepares[0].senders, vec![1, 2]);
    prepare.node_id = 3;
    assert!(manager.handle_vote(&prepare));
}
